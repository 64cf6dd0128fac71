//! The instructions of a DVI file, and how they are read from its bytes.
//!
//! An instruction is one byte, the operation code, followed by zero or more
//! parameters. Parameters of several bytes have the highest byte first. Those
//! of four bytes that are offsets or distances, and all distances, are signed,
//! in two's complement.

use crate::bytes::slice_of;
use vstd::prelude::*;

verus! {

/// A font definition
#[derive(Debug, Clone, PartialEq, Eq)]
pub struct FontDef {
    /// The font number of this font
    pub number: u32,
    /// Font checksum
    pub checksum: u32,
    /// How to scale the font
    pub scale_factor: u32,
    /// The size that the font was designed for
    pub design_size: u32,
    /// Directory of the font file, default if None
    pub directory: Option<Vec<u8>>,
    /// Name of the font file
    pub filename: Vec<u8>,
}

/// The model of a [`FontDef`].
pub struct FontDefView {
    pub number: u32,
    pub checksum: u32,
    pub scale_factor: u32,
    pub design_size: u32,
    pub directory: Option<Seq<u8>>,
    pub filename: Seq<u8>,
}

impl View for FontDef {
    type V = FontDefView;

    open spec fn view(&self) -> FontDefView {
        FontDefView {
            number: self.number,
            checksum: self.checksum,
            scale_factor: self.scale_factor,
            design_size: self.design_size,
            directory: match self.directory {
                Some(directory) => Some(directory@),
                None => None,
            },
            filename: self.filename@,
        }
    }
}

/// A draw instruction
///
/// This is the primary unit of a dvi file. Every file is a sequence of
/// instructions.
#[derive(Debug, Clone, PartialEq, Eq)]
pub enum Instruction {
    /// typeset a character and move right
    SetChar(u32),
    /// typeset a rule of the given height and width and move right
    SetRule(i32, i32),
    /// typeset a character
    PutChar(u32),
    /// typeset a rule of the given height and width
    PutRule(i32, i32),
    /// No-op
    Nop,
    /// beginning of page: the ten counters and the offset of the previous page
    Bop(Vec<i32>, i32),
    /// ending of page
    Eop,
    /// save current positions
    Push,
    /// restore current positions
    Pop,
    /// Move right
    Right(i32),
    /// Move right by *w*, after setting it if a value is given
    W(Option<i32>),
    /// Move right by *x*, after setting it if a value is given
    X(Option<i32>),
    /// Move down
    Down(i32),
    /// Move down by *y*, after setting it if a value is given
    Y(Option<i32>),
    /// Move down by *z*, after setting it if a value is given
    Z(Option<i32>),
    /// Select a font
    Font(u32),
    /// A special: a command for the device
    Xxx(Vec<u8>),
    /// Define a font
    FontDef(FontDef),
    /// preamble
    Pre { format: u8, numerator: u32, denominator: u32, magnification: u32, comment: Vec<u8> },
    /// postamble beginning
    Post {
        final_bop_pointer: i32,
        numerator: u32,
        denominator: u32,
        magnification: u32,
        tallest_height: i32,
        widest_width: i32,
        max_stack_depth: u16,
        total_no_pages: u16,
    },
    /// postamble ending, with the number of bytes 223 that follow it (at most
    /// the largest number of 32 bits)
    PostPost { post_pointer: u32, ident: u8, two_two_three: u32 },
}

/// The model of an [`Instruction`].
pub enum InstructionView {
    SetChar(u32),
    SetRule(i32, i32),
    PutChar(u32),
    PutRule(i32, i32),
    Nop,
    Bop(Seq<i32>, i32),
    Eop,
    Push,
    Pop,
    Right(i32),
    W(Option<i32>),
    X(Option<i32>),
    Down(i32),
    Y(Option<i32>),
    Z(Option<i32>),
    Font(u32),
    Xxx(Seq<u8>),
    FontDef(FontDefView),
    Pre { format: u8, numerator: u32, denominator: u32, magnification: u32, comment: Seq<u8> },
    Post {
        final_bop_pointer: i32,
        numerator: u32,
        denominator: u32,
        magnification: u32,
        tallest_height: i32,
        widest_width: i32,
        max_stack_depth: u16,
        total_no_pages: u16,
    },
    PostPost { post_pointer: u32, ident: u8, two_two_three: u32 },
}

impl View for Instruction {
    type V = InstructionView;

    open spec fn view(&self) -> InstructionView {
        match self {
            Instruction::SetChar(c) => InstructionView::SetChar(*c),
            Instruction::SetRule(a, b) => InstructionView::SetRule(*a, *b),
            Instruction::PutChar(c) => InstructionView::PutChar(*c),
            Instruction::PutRule(a, b) => InstructionView::PutRule(*a, *b),
            Instruction::Nop => InstructionView::Nop,
            Instruction::Bop(counters, previous) => InstructionView::Bop(counters@, *previous),
            Instruction::Eop => InstructionView::Eop,
            Instruction::Push => InstructionView::Push,
            Instruction::Pop => InstructionView::Pop,
            Instruction::Right(d) => InstructionView::Right(*d),
            Instruction::W(d) => InstructionView::W(*d),
            Instruction::X(d) => InstructionView::X(*d),
            Instruction::Down(d) => InstructionView::Down(*d),
            Instruction::Y(d) => InstructionView::Y(*d),
            Instruction::Z(d) => InstructionView::Z(*d),
            Instruction::Font(f) => InstructionView::Font(*f),
            Instruction::Xxx(command) => InstructionView::Xxx(command@),
            Instruction::FontDef(def) => InstructionView::FontDef(def@),
            Instruction::Pre { format, numerator, denominator, magnification, comment } =>
                InstructionView::Pre {
                format: *format,
                numerator: *numerator,
                denominator: *denominator,
                magnification: *magnification,
                comment: comment@,
            },
            Instruction::Post {
                final_bop_pointer,
                numerator,
                denominator,
                magnification,
                tallest_height,
                widest_width,
                max_stack_depth,
                total_no_pages,
            } => InstructionView::Post {
                final_bop_pointer: *final_bop_pointer,
                numerator: *numerator,
                denominator: *denominator,
                magnification: *magnification,
                tallest_height: *tallest_height,
                widest_width: *widest_width,
                max_stack_depth: *max_stack_depth,
                total_no_pages: *total_no_pages,
            },
            Instruction::PostPost { post_pointer, ident, two_two_three } =>
                InstructionView::PostPost {
                post_pointer: *post_pointer,
                ident: *ident,
                two_two_three: *two_two_three,
            },
        }
    }
}

/// Why the bytes of a DVI file cannot be read.
#[derive(Debug, Clone, Copy, PartialEq, Eq)]
pub enum DecodeError {
    /// The bytes end within an instruction.
    Truncated,
    /// The byte is no operation code.
    UnknownOpcode(u8),
}

/// The number that `width` bytes at `at` hold, 1 to 4 of them, the highest
/// byte first.
pub open spec fn unsigned_at(bytes: Seq<u8>, at: int, width: int) -> int {
    if width <= 1 {
        bytes[at] as int
    } else if width == 2 {
        bytes[at] * 256 + bytes[at + 1]
    } else if width == 3 {
        bytes[at] * 65536 + bytes[at + 1] * 256 + bytes[at + 2]
    } else {
        bytes[at] * 16777216 + bytes[at + 1] * 65536 + bytes[at + 2] * 256 + bytes[at + 3]
    }
}

/// The number of values that `width` bytes can hold.
pub open spec fn range_of(width: int) -> int {
    if width <= 1 {
        256
    } else if width == 2 {
        65536
    } else if width == 3 {
        16777216
    } else {
        4294967296
    }
}

/// The signed number that `width` bytes at `at` hold, in two's complement.
pub open spec fn signed_at(bytes: Seq<u8>, at: int, width: int) -> int {
    let value = unsigned_at(bytes, at, width);
    if 2 * value >= range_of(width) {
        value - range_of(width)
    } else {
        value
    }
}

/// How many bytes 223 follow one another from `at` on.
pub open spec fn count_223(bytes: Seq<u8>, at: int) -> nat
    decreases bytes.len() - at,
{
    if at < 0 || at >= bytes.len() || bytes[at] != 223 {
        0
    } else {
        1 + count_223(bytes, at + 1)
    }
}

/// How many bytes of parameters follow the operation code `op`, not counting
/// the bytes whose number a parameter gives. Nothing for what is no operation
/// code.
pub open spec fn fixed_len(op: u8) -> Option<int> {
    if op <= 127 {
        Some(0)
    } else if op <= 131 {
        Some(op - 127)
    } else if op == 132 {
        Some(8)
    } else if op <= 136 {
        Some(op - 132)
    } else if op == 137 {
        Some(8)
    } else if op == 138 {
        Some(0)
    } else if op == 139 {
        Some(44)
    } else if op <= 142 {
        Some(0)
    } else if op <= 146 {
        Some(op - 142)
    } else if op <= 151 {
        Some(op - 147)
    } else if op <= 156 {
        Some(op - 152)
    } else if op <= 160 {
        Some(op - 156)
    } else if op <= 165 {
        Some(op - 161)
    } else if op <= 170 {
        Some(op - 166)
    } else if op <= 234 {
        Some(0)
    } else if op <= 238 {
        Some(op - 234)
    } else if op <= 242 {
        Some(op - 238)
    } else if op <= 246 {
        Some(op - 242 + 14)
    } else if op == 247 {
        Some(14)
    } else if op == 248 {
        Some(28)
    } else if op == 249 {
        Some(5)
    } else {
        None
    }
}

/// How many bytes follow the fixed parameters of the instruction at the start
/// of `bytes`: the text of a special or of a comment, the names of a font, or
/// the bytes 223 at the end.
pub open spec fn trailing_len(bytes: Seq<u8>) -> int
    recommends
        bytes.len() > 0,
        fixed_len(bytes[0]) is Some,
        bytes.len() >= 1 + fixed_len(bytes[0])->0,
{
    let op = bytes[0];
    if 239 <= op <= 242 {
        unsigned_at(bytes, 1, op - 238)
    } else if 243 <= op <= 246 {
        let names = 1 + (op - 242) + 12;
        bytes[names] + bytes[names + 1]
    } else if op == 247 {
        bytes[14] as int
    } else if op == 249 {
        count_223(bytes, 6) as int
    } else {
        0
    }
}

/// Why no instruction can be read from the start of `bytes`, if none can.
pub open spec fn decode_error(bytes: Seq<u8>) -> Option<DecodeError> {
    if bytes.len() == 0 {
        Some(DecodeError::Truncated)
    } else if fixed_len(bytes[0]) is None {
        Some(DecodeError::UnknownOpcode(bytes[0]))
    } else if bytes.len() < 1 + fixed_len(bytes[0])->0 {
        Some(DecodeError::Truncated)
    } else if bytes.len() < 1 + fixed_len(bytes[0])->0 + trailing_len(bytes) {
        Some(DecodeError::Truncated)
    } else {
        None
    }
}

/// The length in bytes of the instruction at the start of `bytes`.
pub open spec fn instruction_len(bytes: Seq<u8>) -> int
    recommends
        decode_error(bytes) is None,
{
    1 + fixed_len(bytes[0])->0 + trailing_len(bytes)
}

/// The distance that an instruction of the w, x, y and z families gives:
/// none for the first operation code of the family, which has no parameter.
pub open spec fn optional_distance(bytes: Seq<u8>, first: int) -> Option<i32> {
    if bytes[0] == first {
        None
    } else {
        Some(signed_at(bytes, 1, bytes[0] - first) as i32)
    }
}

/// The ten counters of a page.
pub open spec fn counters_at(bytes: Seq<u8>, at: int) -> Seq<i32> {
    Seq::new(10, |i: int| signed_at(bytes, at + 4 * i, 4) as i32)
}

/// The font definition at the start of `bytes`.
pub open spec fn font_def_at(bytes: Seq<u8>) -> FontDefView
    recommends
        decode_error(bytes) is None,
        243 <= bytes[0] <= 246,
{
    let k = bytes[0] - 242;
    let directory_len = bytes[k + 13] as int;
    let filename_len = bytes[k + 14] as int;
    FontDefView {
        number: unsigned_at(bytes, 1, k) as u32,
        checksum: unsigned_at(bytes, k + 1, 4) as u32,
        scale_factor: unsigned_at(bytes, k + 5, 4) as u32,
        design_size: unsigned_at(bytes, k + 9, 4) as u32,
        directory: if directory_len == 0 {
            None
        } else {
            Some(bytes.subrange(k + 15, k + 15 + directory_len))
        },
        filename: bytes.subrange(k + 15 + directory_len, k + 15 + directory_len + filename_len),
    }
}

/// The instruction at the start of `bytes`.
pub open spec fn decoded(bytes: Seq<u8>) -> InstructionView
    recommends
        decode_error(bytes) is None,
{
    let op = bytes[0];
    if op <= 127 {
        InstructionView::SetChar(op as u32)
    } else if op <= 131 {
        InstructionView::SetChar(unsigned_at(bytes, 1, op - 127) as u32)
    } else if op == 132 {
        InstructionView::SetRule(signed_at(bytes, 1, 4) as i32, signed_at(bytes, 5, 4) as i32)
    } else if op <= 136 {
        InstructionView::PutChar(unsigned_at(bytes, 1, op - 132) as u32)
    } else if op == 137 {
        InstructionView::PutRule(signed_at(bytes, 1, 4) as i32, signed_at(bytes, 5, 4) as i32)
    } else if op == 138 {
        InstructionView::Nop
    } else if op == 139 {
        InstructionView::Bop(counters_at(bytes, 1), signed_at(bytes, 41, 4) as i32)
    } else if op == 140 {
        InstructionView::Eop
    } else if op == 141 {
        InstructionView::Push
    } else if op == 142 {
        InstructionView::Pop
    } else if op <= 146 {
        InstructionView::Right(signed_at(bytes, 1, op - 142) as i32)
    } else if op <= 151 {
        InstructionView::W(optional_distance(bytes, 147))
    } else if op <= 156 {
        InstructionView::X(optional_distance(bytes, 152))
    } else if op <= 160 {
        InstructionView::Down(signed_at(bytes, 1, op - 156) as i32)
    } else if op <= 165 {
        InstructionView::Y(optional_distance(bytes, 161))
    } else if op <= 170 {
        InstructionView::Z(optional_distance(bytes, 166))
    } else if op <= 234 {
        InstructionView::Font((op - 171) as u32)
    } else if op <= 238 {
        InstructionView::Font(unsigned_at(bytes, 1, op - 234) as u32)
    } else if op <= 242 {
        InstructionView::Xxx(
            bytes.subrange(1 + (op - 238), 1 + (op - 238) + trailing_len(bytes)),
        )
    } else if op <= 246 {
        InstructionView::FontDef(font_def_at(bytes))
    } else if op == 247 {
        InstructionView::Pre {
            format: bytes[1],
            numerator: unsigned_at(bytes, 2, 4) as u32,
            denominator: unsigned_at(bytes, 6, 4) as u32,
            magnification: unsigned_at(bytes, 10, 4) as u32,
            comment: bytes.subrange(15, 15 + bytes[14]),
        }
    } else if op == 248 {
        InstructionView::Post {
            final_bop_pointer: signed_at(bytes, 1, 4) as i32,
            numerator: unsigned_at(bytes, 5, 4) as u32,
            denominator: unsigned_at(bytes, 9, 4) as u32,
            magnification: unsigned_at(bytes, 13, 4) as u32,
            tallest_height: signed_at(bytes, 17, 4) as i32,
            widest_width: signed_at(bytes, 21, 4) as i32,
            max_stack_depth: unsigned_at(bytes, 25, 2) as u16,
            total_no_pages: unsigned_at(bytes, 27, 2) as u16,
        }
    } else {
        InstructionView::PostPost {
            post_pointer: unsigned_at(bytes, 1, 4) as u32,
            ident: bytes[5],
            two_two_three: if count_223(bytes, 6) > u32::MAX {
                u32::MAX
            } else {
                count_223(bytes, 6) as u32
            },
        }
    }
}

/// The instructions that `bytes` hold, one after the other, if `bytes` can
/// be read to their end.
pub open spec fn parsed(bytes: Seq<u8>) -> Option<Seq<InstructionView>>
    decreases bytes.len(),
{
    if bytes.len() == 0 {
        Some(Seq::empty())
    } else if decode_error(bytes) is Some || instruction_len(bytes) <= 0 {
        None
    } else {
        match parsed(bytes.skip(instruction_len(bytes))) {
            Some(rest) => Some(seq![decoded(bytes)] + rest),
            None => None,
        }
    }
}

/// Why `bytes` cannot be read to their end, if they cannot: the error at the
/// first instruction that cannot be read.
pub open spec fn parse_error(bytes: Seq<u8>) -> Option<DecodeError>
    decreases bytes.len(),
{
    if bytes.len() == 0 {
        None
    } else if decode_error(bytes) is Some || instruction_len(bytes) <= 0 {
        decode_error(bytes)
    } else {
        parse_error(bytes.skip(instruction_len(bytes)))
    }
}

/// Bytes cannot be read to their end if and only if there is an error at
/// one of their instructions.
pub proof fn lemma_parse_fails_with_error(bytes: Seq<u8>)
    ensures
        parsed(bytes) is None <==> parse_error(bytes) is Some,
    decreases bytes.len(),
{
    if bytes.len() > 0 && decode_error(bytes) is None && instruction_len(bytes) > 0 {
        lemma_parse_fails_with_error(bytes.skip(instruction_len(bytes)));
    }
}

/// The number that `width` bytes at `at` hold, the highest byte first.
fn unsigned(bytes: &[u8], at: usize, width: usize) -> (value: u32)
    requires
        1 <= width <= 4,
        at + width <= bytes@.len(),
    ensures
        value == unsigned_at(bytes@, at as int, width as int),
{
    if width == 1 {
        bytes[at] as u32
    } else if width == 2 {
        bytes[at] as u32 * 256 + bytes[at + 1] as u32
    } else if width == 3 {
        bytes[at] as u32 * 65536 + bytes[at + 1] as u32 * 256 + bytes[at + 2] as u32
    } else {
        bytes[at] as u32 * 16777216 + bytes[at + 1] as u32 * 65536 + bytes[at + 2] as u32 * 256
            + bytes[at + 3] as u32
    }
}

/// The signed number that `width` bytes at `at` hold.
fn signed(bytes: &[u8], at: usize, width: usize) -> (value: i32)
    requires
        1 <= width <= 4,
        at + width <= bytes@.len(),
    ensures
        value == signed_at(bytes@, at as int, width as int),
{
    let value: i64 = unsigned(bytes, at, width) as i64;
    let range: i64 = if width == 1 {
        256
    } else if width == 2 {
        65536
    } else if width == 3 {
        16777216
    } else {
        4294967296
    };
    if 2 * value >= range {
        (value - range) as i32
    } else {
        value as i32
    }
}

/// How many bytes 223 follow one another from `at` on.
fn count_trailer(bytes: &[u8], at: usize) -> (count: usize)
    requires
        at <= bytes@.len(),
    ensures
        count == count_223(bytes@, at as int),
        at + count <= bytes@.len(),
{
    let mut end: usize = at;
    while end < bytes.len() && bytes[end] == 223
        invariant
            at <= end <= bytes@.len(),
            count_223(bytes@, at as int) == (end - at) + count_223(bytes@, end as int),
        decreases bytes.len() - end,
    {
        end += 1;
    }
    end - at
}

/// How many bytes of parameters follow the operation code.
fn fixed_length(op: u8) -> (len: Option<usize>)
    ensures
        len is Some <==> fixed_len(op) is Some,
        len is Some ==> len->0 == fixed_len(op)->0 && len->0 <= 44,
{
    if op <= 127 {
        Some(0)
    } else if op <= 131 {
        Some((op - 127) as usize)
    } else if op == 132 {
        Some(8)
    } else if op <= 136 {
        Some((op - 132) as usize)
    } else if op == 137 {
        Some(8)
    } else if op == 138 {
        Some(0)
    } else if op == 139 {
        Some(44)
    } else if op <= 142 {
        Some(0)
    } else if op <= 146 {
        Some((op - 142) as usize)
    } else if op <= 151 {
        Some((op - 147) as usize)
    } else if op <= 156 {
        Some((op - 152) as usize)
    } else if op <= 160 {
        Some((op - 156) as usize)
    } else if op <= 165 {
        Some((op - 161) as usize)
    } else if op <= 170 {
        Some((op - 166) as usize)
    } else if op <= 234 {
        Some(0)
    } else if op <= 238 {
        Some((op - 234) as usize)
    } else if op <= 242 {
        Some((op - 238) as usize)
    } else if op <= 246 {
        Some((op - 242) as usize + 14)
    } else if op == 247 {
        Some(14)
    } else if op == 248 {
        Some(28)
    } else if op == 249 {
        Some(5)
    } else {
        None
    }
}

/// The distance of an instruction of the w, x, y and z families.
fn distance(bytes: &[u8], first: u8) -> (d: Option<i32>)
    requires
        bytes@.len() > 0,
        first <= bytes@[0] <= first + 4,
        first <= 250,
        bytes@.len() >= 1 + (bytes@[0] - first),
    ensures
        d == optional_distance(bytes@, first as int),
{
    let op = bytes[0];
    if op == first {
        None
    } else {
        Some(signed(bytes, 1, (op - first) as usize))
    }
}

/// The ten counters of a page.
fn counters(bytes: &[u8], at: usize) -> (values: Vec<i32>)
    requires
        at + 40 <= bytes@.len(),
    ensures
        values@ == counters_at(bytes@, at as int),
{
    let size = bytes.len();
    let mut values: Vec<i32> = Vec::new();
    let mut i: usize = 0;
    while i < 10
        invariant
            i <= 10,
            size == bytes@.len(),
            at + 40 <= bytes@.len(),
            values@.len() == i,
            forall|j: int| 0 <= j < i ==> values@[j] == signed_at(bytes@, at + 4 * j, 4) as i32,
        decreases 10 - i,
    {
        values.push(signed(bytes, at + 4 * i, 4));
        i += 1;
    }
    assert(values@ =~= counters_at(bytes@, at as int));
    values
}

/// Reads the instruction at the start of `bytes`. The result is the
/// instruction and its length in bytes.
pub fn decode_first(bytes: &[u8]) -> (result: Result<(Instruction, usize), DecodeError>)
    ensures
        match result {
            Ok((instruction, len)) => {
                &&& decode_error(bytes@) is None
                &&& instruction@ == decoded(bytes@)
                &&& len == instruction_len(bytes@)
                &&& 1 <= len <= bytes@.len()
            },
            Err(error) => decode_error(bytes@) == Some(error),
        },
{
    let size = bytes.len();
    if size == 0 {
        return Err(DecodeError::Truncated);
    }
    let op = bytes[0];
    let fixed = match fixed_length(op) {
        Some(fixed) => fixed,
        None => {
            return Err(DecodeError::UnknownOpcode(op));
        },
    };
    if size - 1 < fixed {
        return Err(DecodeError::Truncated);
    }
    let trailing: usize = if 239 <= op && op <= 242 {
        unsigned(bytes, 1, (op - 238) as usize) as usize
    } else if 243 <= op && op <= 246 {
        let names: usize = 1 + (op - 242) as usize + 12;
        bytes[names] as usize + bytes[names + 1] as usize
    } else if op == 247 {
        bytes[14] as usize
    } else if op == 249 {
        count_trailer(bytes, 6)
    } else {
        0
    };
    if size - 1 - fixed < trailing {
        return Err(DecodeError::Truncated);
    }
    let len: usize = 1 + fixed + trailing;
    let instruction = if op <= 127 {
        Instruction::SetChar(op as u32)
    } else if op <= 131 {
        Instruction::SetChar(unsigned(bytes, 1, (op - 127) as usize))
    } else if op == 132 {
        Instruction::SetRule(signed(bytes, 1, 4), signed(bytes, 5, 4))
    } else if op <= 136 {
        Instruction::PutChar(unsigned(bytes, 1, (op - 132) as usize))
    } else if op == 137 {
        Instruction::PutRule(signed(bytes, 1, 4), signed(bytes, 5, 4))
    } else if op == 138 {
        Instruction::Nop
    } else if op == 139 {
        Instruction::Bop(counters(bytes, 1), signed(bytes, 41, 4))
    } else if op == 140 {
        Instruction::Eop
    } else if op == 141 {
        Instruction::Push
    } else if op == 142 {
        Instruction::Pop
    } else if op <= 146 {
        Instruction::Right(signed(bytes, 1, (op - 142) as usize))
    } else if op <= 151 {
        Instruction::W(distance(bytes, 147))
    } else if op <= 156 {
        Instruction::X(distance(bytes, 152))
    } else if op <= 160 {
        Instruction::Down(signed(bytes, 1, (op - 156) as usize))
    } else if op <= 165 {
        Instruction::Y(distance(bytes, 161))
    } else if op <= 170 {
        Instruction::Z(distance(bytes, 166))
    } else if op <= 234 {
        Instruction::Font((op - 171) as u32)
    } else if op <= 238 {
        Instruction::Font(unsigned(bytes, 1, (op - 234) as usize))
    } else if op <= 242 {
        Instruction::Xxx(slice_of(bytes, 1 + fixed, len))
    } else if op <= 246 {
        let k: usize = (op - 242) as usize;
        let directory_len: usize = bytes[k + 13] as usize;
        let directory = if directory_len == 0 {
            None
        } else {
            Some(slice_of(bytes, k + 15, k + 15 + directory_len))
        };
        Instruction::FontDef(
            FontDef {
                number: unsigned(bytes, 1, k),
                checksum: unsigned(bytes, k + 1, 4),
                scale_factor: unsigned(bytes, k + 5, 4),
                design_size: unsigned(bytes, k + 9, 4),
                directory,
                filename: slice_of(bytes, k + 15 + directory_len, len),
            },
        )
    } else if op == 247 {
        Instruction::Pre {
            format: bytes[1],
            numerator: unsigned(bytes, 2, 4),
            denominator: unsigned(bytes, 6, 4),
            magnification: unsigned(bytes, 10, 4),
            comment: slice_of(bytes, 15, len),
        }
    } else if op == 248 {
        Instruction::Post {
            final_bop_pointer: signed(bytes, 1, 4),
            numerator: unsigned(bytes, 5, 4),
            denominator: unsigned(bytes, 9, 4),
            magnification: unsigned(bytes, 13, 4),
            tallest_height: signed(bytes, 17, 4),
            widest_width: signed(bytes, 21, 4),
            max_stack_depth: unsigned(bytes, 25, 2) as u16,
            total_no_pages: unsigned(bytes, 27, 2) as u16,
        }
    } else {
        Instruction::PostPost {
            post_pointer: unsigned(bytes, 1, 4),
            ident: bytes[5],
            two_two_three: if trailing > u32::MAX as usize {
                u32::MAX
            } else {
                trailing as u32
            },
        }
    };
    Ok((instruction, len))
}

/// Reads the instructions of a DVI file, one after the other, to the end of
/// the file.
pub fn parse_dvi(input: &[u8]) -> (result: Result<Vec<Instruction>, DecodeError>)
    ensures
        match result {
            Ok(instructions) => {
                &&& parse_error(input@) is None
                &&& parsed(input@) == Some(instructions@.map_values(|i: Instruction| i@))
            },
            Err(error) => parse_error(input@) == Some(error) && parsed(input@) is None,
        },
{
    let size = input.len();
    let mut instructions: Vec<Instruction> = Vec::new();
    let mut at: usize = 0;
    assert(input@.skip(0) =~= input@);
    while at < size
        invariant
            at <= size,
            size == input@.len(),
            parse_error(input@) == parse_error(input@.skip(at as int)),
            parsed(input@) == match parsed(input@.skip(at as int)) {
                Some(rest) => Some(instructions@.map_values(|i: Instruction| i@) + rest),
                None => None,
            },
        decreases size - at,
    {
        let rest = vstd::slice::slice_subrange(input, at, size);
        assert(rest@ =~= input@.skip(at as int));
        match decode_first(rest) {
            Ok((instruction, len)) => {
                proof {
                    let before = instructions@.map_values(|i: Instruction| i@);
                    let after = instructions@.push(instruction).map_values(|i: Instruction| i@);
                    assert(after =~= before.push(instruction@));
                    assert(input@.skip(at as int).skip(len as int) =~= input@.skip(at + len));
                    if let Some(tail) = parsed(input@.skip(at + len)) {
                        assert(before + (seq![instruction@] + tail) =~= after + tail);
                    }
                }
                instructions.push(instruction);
                at += len;
            },
            Err(error) => {
                return Err(error);
            },
        }
    }
    assert(input@.skip(at as int).len() == 0);
    assert(instructions@.map_values(|i: Instruction| i@) + Seq::empty()
        =~= instructions@.map_values(|i: Instruction| i@));
    Ok(instructions)
}

} // verus!
