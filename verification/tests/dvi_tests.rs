use rust_tikz::dvi2svg::instruction::{decode_first, parse_dvi, DecodeError, FontDef, Instruction};

/// The instruction of the `dvi` crate, as an instruction of this library.
fn converted(instruction: dvi::Instruction) -> Instruction {
    match instruction {
        dvi::Instruction::Set(c) => Instruction::SetChar(c),
        dvi::Instruction::SetRule(a, b) => Instruction::SetRule(a, b),
        dvi::Instruction::Put(c) => Instruction::PutChar(c),
        dvi::Instruction::PutRule(a, b) => Instruction::PutRule(a, b),
        dvi::Instruction::Nop => Instruction::Nop,
        dvi::Instruction::Bop(counters, p) => Instruction::Bop(counters.to_vec(), p),
        dvi::Instruction::Eop => Instruction::Eop,
        dvi::Instruction::Push => Instruction::Push,
        dvi::Instruction::Pop => Instruction::Pop,
        dvi::Instruction::Right(d) => Instruction::Right(d),
        dvi::Instruction::W(d) => Instruction::W(d),
        dvi::Instruction::X(d) => Instruction::X(d),
        dvi::Instruction::Down(d) => Instruction::Down(d),
        dvi::Instruction::Y(d) => Instruction::Y(d),
        dvi::Instruction::Z(d) => Instruction::Z(d),
        dvi::Instruction::Font(f) => Instruction::Font(f),
        dvi::Instruction::Xxx(bytes) => Instruction::Xxx(bytes),
        dvi::Instruction::FontDef(def) => Instruction::FontDef(FontDef {
            number: def.number,
            checksum: def.checksum,
            scale_factor: def.scale_factor,
            design_size: def.design_size,
            directory: def.directory,
            filename: def.filename,
        }),
        dvi::Instruction::Pre { format, numerator, denominator, magnification, comment } => {
            Instruction::Pre { format, numerator, denominator, magnification, comment }
        }
        dvi::Instruction::Post {
            final_bop_pointer,
            numerator,
            denominator,
            magnification,
            tallest_height,
            widest_width,
            max_stack_depth,
            total_no_pages,
        } => Instruction::Post {
            final_bop_pointer,
            numerator,
            denominator,
            magnification,
            tallest_height,
            widest_width,
            max_stack_depth,
            total_no_pages,
        },
        dvi::Instruction::PostPost { post_pointer, ident, two_two_three } => {
            Instruction::PostPost { post_pointer, ident, two_two_three }
        }
    }
}

/// What the `dvi` crate reads at the start of `bytes`: the instruction and
/// its length. Nothing where it fails, and where it would not return.
fn reference(bytes: &[u8]) -> Option<(Instruction, usize)> {
    if bytes.first().is_some_and(|op| *op >= 250) {
        return None;
    }
    match dvi::Instruction::parse(bytes) {
        Ok((rest, instruction)) => Some((converted(instruction), bytes.len() - rest.len())),
        Err(_) => None,
    }
}

/// Bytes that are different at every place, to show which are read.
fn filler(len: usize, seed: u8) -> Vec<u8> {
    (0..len).map(|i| (i as u8).wrapping_mul(37).wrapping_add(seed) | 1).collect()
}

#[test]
fn every_operation_code_is_read_as_the_dvi_crate_reads_it() {
    for op in 0..=249u8 {
        for seed in [0u8, 0x7E, 0x80, 0xFE] {
            let mut bytes = vec![op];
            bytes.extend(filler(60, seed));
            if (239..=242).contains(&op) {
                // Keep the text of a special short.
                for i in 1..(op - 238) as usize {
                    bytes[i] = 0;
                }
                bytes[(op - 238) as usize] = 7;
            }
            if (243..=246).contains(&op) {
                let names = 1 + (op - 242) as usize + 12;
                bytes[names] = seed % 3;
                bytes[names + 1] = 5;
            }
            if op == 247 {
                bytes[14] = 9;
            }
            if op == 249 {
                bytes[6] = 223;
                bytes[7] = 223;
                bytes[8] = 223;
            }
            let expected = reference(&bytes);
            assert!(expected.is_some(), "operation code {}", op);
            assert_eq!(decode_first(&bytes).ok(), expected, "operation code {}", op);
        }
    }
}

#[test]
fn every_truncation_is_seen_as_the_dvi_crate_sees_it() {
    for op in 0..=249u8 {
        let mut bytes = vec![op];
        bytes.extend(filler(60, 0x55));
        if (239..=242).contains(&op) {
            for i in 1..(op - 238) as usize {
                bytes[i] = 0;
            }
            bytes[(op - 238) as usize] = 7;
        }
        if (243..=246).contains(&op) {
            let names = 1 + (op - 242) as usize + 12;
            bytes[names] = 2;
            bytes[names + 1] = 5;
        }
        if op == 247 {
            bytes[14] = 9;
        }
        let (_, len) = decode_first(&bytes).unwrap();
        for cut in 0..=len + 1 {
            let part = &bytes[..cut];
            let got = decode_first(part);
            assert_eq!(got.clone().ok(), reference(part), "operation code {} cut at {}", op, cut);
            if cut < len {
                assert_eq!(got, Err(DecodeError::Truncated), "operation code {} cut at {}", op, cut);
            }
        }
    }
}

#[test]
fn what_is_no_operation_code_is_not_read() {
    for op in 250..=255u8 {
        assert_eq!(decode_first(&[op, 0, 0, 0, 0, 0]), Err(DecodeError::UnknownOpcode(op)));
        assert_eq!(parse_dvi(&[138, op]), Err(DecodeError::UnknownOpcode(op)));
    }
    assert_eq!(decode_first(&[]), Err(DecodeError::Truncated));
}

#[test]
fn numbers_are_read_highest_byte_first_and_signed() {
    assert_eq!(decode_first(&[128, 0xFF]), Ok((Instruction::SetChar(255), 2)));
    assert_eq!(decode_first(&[129, 0x12, 0x34]), Ok((Instruction::SetChar(0x1234), 3)));
    assert_eq!(decode_first(&[130, 0x12, 0x34, 0x56]), Ok((Instruction::SetChar(0x123456), 4)));
    assert_eq!(
        decode_first(&[131, 0xFF, 0xFF, 0xFF, 0xFF]),
        Ok((Instruction::SetChar(u32::MAX), 5))
    );
    assert_eq!(decode_first(&[143, 0x80]), Ok((Instruction::Right(-128), 2)));
    assert_eq!(decode_first(&[144, 0xFF, 0xFE]), Ok((Instruction::Right(-2), 3)));
    assert_eq!(decode_first(&[145, 0x80, 0x00, 0x00]), Ok((Instruction::Right(-8388608), 4)));
    assert_eq!(decode_first(&[145, 0x7F, 0xFF, 0xFF]), Ok((Instruction::Right(8388607), 4)));
    assert_eq!(
        decode_first(&[146, 0x80, 0x00, 0x00, 0x00]),
        Ok((Instruction::Right(i32::MIN), 5))
    );
    assert_eq!(decode_first(&[160, 0, 0, 1, 0]), Ok((Instruction::Down(256), 5)));
    assert_eq!(decode_first(&[147]), Ok((Instruction::W(None), 1)));
    assert_eq!(decode_first(&[148, 0xFF]), Ok((Instruction::W(Some(-1)), 2)));
    assert_eq!(decode_first(&[152, 9]), Ok((Instruction::X(None), 1)));
    assert_eq!(decode_first(&[156, 0, 0, 0, 9]), Ok((Instruction::X(Some(9)), 5)));
    assert_eq!(decode_first(&[161]), Ok((Instruction::Y(None), 1)));
    assert_eq!(decode_first(&[170, 0xFF, 0xFF, 0xFF, 0xF0]), Ok((Instruction::Z(Some(-16)), 5)));
    assert_eq!(decode_first(&[171]), Ok((Instruction::Font(0), 1)));
    assert_eq!(decode_first(&[234]), Ok((Instruction::Font(63), 1)));
    assert_eq!(decode_first(&[235, 64]), Ok((Instruction::Font(64), 2)));
    assert_eq!(decode_first(&[127]), Ok((Instruction::SetChar(127), 1)));
}

#[test]
fn the_trailer_is_counted_to_its_end() {
    let bytes = [249, 0, 0, 1, 0, 2, 223, 223, 223, 223, 223, 0, 223];
    assert_eq!(
        decode_first(&bytes),
        Ok((Instruction::PostPost { post_pointer: 256, ident: 2, two_two_three: 5 }, 11))
    );
    assert_eq!(
        decode_first(&bytes[..6]),
        Ok((Instruction::PostPost { post_pointer: 256, ident: 2, two_two_three: 0 }, 6))
    );
}

#[test]
fn a_file_is_read_to_its_end() {
    let mut bytes = vec![247, 2, 0, 0, 0, 1, 0, 0, 0, 2, 0, 0, 3, 232, 2, b'h', b'i'];
    bytes.extend([239, 3, b'a', b'b', b'c', 141, 65, 142, 140]);
    let expected = vec![
        Instruction::Pre {
            format: 2,
            numerator: 1,
            denominator: 2,
            magnification: 1000,
            comment: b"hi".to_vec(),
        },
        Instruction::Xxx(b"abc".to_vec()),
        Instruction::Push,
        Instruction::SetChar(65),
        Instruction::Pop,
        Instruction::Eop,
    ];
    assert_eq!(parse_dvi(&bytes), Ok(expected));
    assert_eq!(parse_dvi(&[]), Ok(Vec::new()));
    bytes.push(132);
    assert_eq!(parse_dvi(&bytes), Err(DecodeError::Truncated));
    bytes.extend([0; 8]);
    assert_eq!(parse_dvi(&bytes).map(|all| all.len()), Ok(7));
}
