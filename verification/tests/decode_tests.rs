use agi_pic::common::PosU8;
use agi_pic::pic::get_color_str;
use agi_pic::pic::is_opcode_byte;
use agi_pic::pic::relative_step;
use agi_pic::pic::CornerLineStartDirection;
use agi_pic::pic::DerivedPicRenderInstruction;
use agi_pic::pic::PicRenderInstruction;
use agi_pic::pic::PicResource;
use agi_pic::pic::PictureBufferType;

fn points(pairs: &[(u8, u8)]) -> Vec<PosU8> {
    pairs.iter().map(|&(x, y)| PosU8::new(x, y)).collect()
}

fn decode(data: &[u8], offset: usize) -> (DerivedPicRenderInstruction, usize) {
    DerivedPicRenderInstruction::create_from_vec(data, offset)
}

#[test]
fn pos_new_keeps_both_coordinates() {
    let p = PosU8::new(3, 250);
    assert_eq!(p.x, 3);
    assert_eq!(p.y, 250);
}

#[test]
fn opcode_bytes_have_a_high_nibble_of_f() {
    assert!(is_opcode_byte(0xF0));
    assert!(is_opcode_byte(0xFF));
    assert!(is_opcode_byte(0xFB));
    assert!(!is_opcode_byte(0xEF));
    assert!(!is_opcode_byte(0x0F));
    assert!(!is_opcode_byte(0x00));
}

#[test]
fn relative_byte_moves_by_signed_nibbles() {
    assert_eq!(relative_step(PosU8::new(10, 10), 0x3A), PosU8::new(13, 8));
    assert_eq!(relative_step(PosU8::new(10, 10), 0x00), PosU8::new(10, 10));
    assert_eq!(relative_step(PosU8::new(10, 10), 0x77), PosU8::new(17, 17));
    assert_eq!(relative_step(PosU8::new(10, 10), 0xFF), PosU8::new(3, 3));
    assert_eq!(relative_step(PosU8::new(10, 10), 0x80), PosU8::new(10, 10));
    assert_eq!(relative_step(PosU8::new(10, 10), 0x08), PosU8::new(10, 10));
    assert_eq!(relative_step(PosU8::new(10, 10), 0x92), PosU8::new(9, 12));
}

#[test]
fn relative_byte_wraps_each_coordinate_as_a_byte() {
    assert_eq!(relative_step(PosU8::new(0, 0), 0x99), PosU8::new(255, 255));
    assert_eq!(relative_step(PosU8::new(254, 253), 0x37), PosU8::new(1, 4));
    assert_eq!(relative_step(PosU8::new(2, 255), 0xF1), PosU8::new(251, 0));
}

#[test]
fn every_displacement_survives_encoding() {
    for dx in -7i32..=7 {
        for dy in -7i32..=7 {
            let x_bits = if dx < 0 { 0x80 | ((-dx) << 4) } else { dx << 4 };
            let y_bits = if dy < 0 { 0x08 | (-dy) } else { dy };
            let byte = (x_bits | y_bits) as u8;
            let next = relative_step(PosU8::new(100, 100), byte);
            assert_eq!(next.x as i32, 100 + dx);
            assert_eq!(next.y as i32, 100 + dy);
        }
    }
}

#[test]
fn colour_opcodes_take_one_argument() {
    let data = [0xF0, 0x0C, 0xF2, 0x03, 0xF1, 0xF3];
    let (first, next) = decode(&data, 0);
    assert!(matches!(
        first,
        DerivedPicRenderInstruction::SetColor(
            PicRenderInstruction::SetPicColorAndEnablePicDraw,
            PictureBufferType::Picture,
            Some(0x0C)
        )
    ));
    assert_eq!(next, 2);
    let (second, next) = decode(&data, 2);
    assert!(matches!(
        second,
        DerivedPicRenderInstruction::SetColor(
            PicRenderInstruction::SetPriColorAndEnablePriDraw,
            PictureBufferType::Priority,
            Some(0x03)
        )
    ));
    assert_eq!(next, 4);
    let (third, next) = decode(&data, 4);
    assert!(matches!(
        third,
        DerivedPicRenderInstruction::SetColor(
            PicRenderInstruction::DisablePicDraw,
            PictureBufferType::Picture,
            None
        )
    ));
    assert_eq!(next, 5);
    let (fourth, next) = decode(&data, 5);
    assert!(matches!(
        fourth,
        DerivedPicRenderInstruction::SetColor(
            PicRenderInstruction::DisablePriDraw,
            PictureBufferType::Priority,
            None
        )
    ));
    assert_eq!(next, 6);
}

#[test]
fn colour_opcode_without_argument_draws_nothing() {
    let data = [0xF0, 0xF2];
    let (first, next) = decode(&data, 0);
    assert!(matches!(
        first,
        DerivedPicRenderInstruction::Unimplemented(PicRenderInstruction::SetPicColorAndEnablePicDraw)
    ));
    assert_eq!(next, 1);
    let (second, next) = decode(&data, 1);
    assert!(matches!(
        second,
        DerivedPicRenderInstruction::Unimplemented(PicRenderInstruction::SetPriColorAndEnablePriDraw)
    ));
    assert_eq!(next, 2);
}

#[test]
fn absolute_line_reads_pairs() {
    let data = [0xF6, 1, 2, 3, 4, 5, 6, 0xFF];
    let (instruction, next) = decode(&data, 0);
    match instruction {
        DerivedPicRenderInstruction::DrawLines(PicRenderInstruction::AbsLine, got) => {
            assert_eq!(got, points(&[(1, 2), (3, 4), (5, 6)]));
        }
        other => panic!("unexpected {:?}", other),
    }
    assert_eq!(next, 7);
}

#[test]
fn odd_or_empty_pair_runs_give_no_points() {
    assert!(DerivedPicRenderInstruction::generate_point_pairs(&[1, 2, 3]).is_empty());
    assert!(DerivedPicRenderInstruction::generate_point_pairs(&[]).is_empty());
    assert!(DerivedPicRenderInstruction::generate_point_pairs(&[9]).is_empty());
    assert_eq!(
        DerivedPicRenderInstruction::generate_point_pairs(&[9, 8]),
        points(&[(9, 8)])
    );
}

#[test]
fn fill_reads_pairs() {
    let data = [0xF8, 10, 20, 30, 40];
    let (instruction, next) = decode(&data, 0);
    match instruction {
        DerivedPicRenderInstruction::Fill(PicRenderInstruction::Fill, got) => {
            assert_eq!(got, points(&[(10, 20), (30, 40)]));
        }
        other => panic!("unexpected {:?}", other),
    }
    assert_eq!(next, 5);
}

#[test]
fn y_corner_starts_by_changing_y() {
    let got = DerivedPicRenderInstruction::generate_corner_lines(
        &[10, 20, 30, 40, 50, 60],
        CornerLineStartDirection::StartOnY,
    );
    assert_eq!(got, points(&[(10, 20), (10, 30), (40, 30), (40, 50), (60, 50)]));
}

#[test]
fn x_corner_starts_by_changing_x() {
    let got = DerivedPicRenderInstruction::generate_corner_lines(
        &[10, 20, 30, 40, 50, 60],
        CornerLineStartDirection::StartOnX,
    );
    assert_eq!(got, points(&[(10, 20), (30, 20), (30, 40), (50, 40), (50, 60)]));
}

#[test]
fn corner_opcodes_pick_their_start_axis() {
    let data = [0xF4, 1, 2, 3, 0xF5, 1, 2, 3];
    let (first, next) = decode(&data, 0);
    match first {
        DerivedPicRenderInstruction::DrawLines(PicRenderInstruction::DrawYCorner, got) => {
            assert_eq!(got, points(&[(1, 2), (1, 3)]));
        }
        other => panic!("unexpected {:?}", other),
    }
    assert_eq!(next, 4);
    let (second, next) = decode(&data, 4);
    match second {
        DerivedPicRenderInstruction::DrawLines(PicRenderInstruction::DrawXCorner, got) => {
            assert_eq!(got, points(&[(1, 2), (3, 2)]));
        }
        other => panic!("unexpected {:?}", other),
    }
    assert_eq!(next, 8);
}

#[test]
fn short_corner_and_relative_runs_give_no_points() {
    assert!(DerivedPicRenderInstruction::generate_corner_lines(
        &[5],
        CornerLineStartDirection::StartOnX
    )
    .is_empty());
    assert!(DerivedPicRenderInstruction::generate_corner_lines(
        &[],
        CornerLineStartDirection::StartOnY
    )
    .is_empty());
    assert!(DerivedPicRenderInstruction::generate_rel_lines(&[5]).is_empty());
    assert!(DerivedPicRenderInstruction::generate_rel_lines(&[]).is_empty());
    assert_eq!(
        DerivedPicRenderInstruction::generate_rel_lines(&[5, 6]),
        points(&[(5, 6)])
    );
}

#[test]
fn relative_line_accumulates_displacements() {
    let got = DerivedPicRenderInstruction::generate_rel_lines(&[10, 10, 0x3A, 0x92, 0x00]);
    assert_eq!(got, points(&[(10, 10), (13, 8), (12, 10), (12, 10)]));
    let data = [0xF7, 10, 10, 0x3A];
    let (instruction, _) = decode(&data, 0);
    match instruction {
        DerivedPicRenderInstruction::DrawLines(PicRenderInstruction::RelLine, got) => {
            assert_eq!(got, points(&[(10, 10), (13, 8)]));
        }
        other => panic!("unexpected {:?}", other),
    }
}

#[test]
fn pen_end_and_unknown_opcodes_are_recorded() {
    let data = [0xF9, 1, 0xFA, 2, 3, 0xFB, 0xFF];
    let (a, next) = decode(&data, 0);
    assert!(matches!(
        a,
        DerivedPicRenderInstruction::Unimplemented(PicRenderInstruction::SetPenSizeAndStyle)
    ));
    assert_eq!(next, 2);
    let (b, next) = decode(&data, 2);
    assert!(matches!(
        b,
        DerivedPicRenderInstruction::Unimplemented(PicRenderInstruction::PlotWithPen)
    ));
    assert_eq!(next, 5);
    let (c, next) = decode(&data, 5);
    assert!(matches!(
        c,
        DerivedPicRenderInstruction::Unimplemented(PicRenderInstruction::Unknown(0xFB))
    ));
    assert_eq!(next, 6);
    let (d, next) = decode(&data, 6);
    assert!(matches!(
        d,
        DerivedPicRenderInstruction::Unimplemented(PicRenderInstruction::EndInstruction)
    ));
    assert_eq!(next, 7);
}

#[test]
fn kind_of_covers_the_opcode_table() {
    let kind = DerivedPicRenderInstruction::kind_of;
    assert_eq!(kind(0xF0), PicRenderInstruction::SetPicColorAndEnablePicDraw);
    assert_eq!(kind(0xF1), PicRenderInstruction::DisablePicDraw);
    assert_eq!(kind(0xF2), PicRenderInstruction::SetPriColorAndEnablePriDraw);
    assert_eq!(kind(0xF3), PicRenderInstruction::DisablePriDraw);
    assert_eq!(kind(0xF4), PicRenderInstruction::DrawYCorner);
    assert_eq!(kind(0xF5), PicRenderInstruction::DrawXCorner);
    assert_eq!(kind(0xF6), PicRenderInstruction::AbsLine);
    assert_eq!(kind(0xF7), PicRenderInstruction::RelLine);
    assert_eq!(kind(0xF8), PicRenderInstruction::Fill);
    assert_eq!(kind(0xF9), PicRenderInstruction::SetPenSizeAndStyle);
    assert_eq!(kind(0xFA), PicRenderInstruction::PlotWithPen);
    assert_eq!(kind(0xFF), PicRenderInstruction::EndInstruction);
    assert_eq!(kind(0xFB), PicRenderInstruction::Unknown(0xFB));
    assert_eq!(kind(0xFC), PicRenderInstruction::Unknown(0xFC));
    assert_eq!(kind(0xFE), PicRenderInstruction::Unknown(0xFE));
    assert_eq!(kind(0x12), PicRenderInstruction::Unknown(0x12));
    assert_ne!(kind(0xFB), kind(0xFC));
}

#[test]
fn a_leading_argument_byte_is_an_unknown_instruction() {
    let data = [0x05, 0x06, 0xF1];
    let (first, next) = decode(&data, 0);
    assert!(matches!(
        first,
        DerivedPicRenderInstruction::Unimplemented(PicRenderInstruction::Unknown(0x05))
    ));
    assert_eq!(next, 2);
}

#[test]
fn payload_decodes_to_a_program_in_order() {
    let data = vec![0xF0, 0x01, 0xF6, 10, 10, 20, 10, 0xF8, 15, 15, 0xFF];
    let picture = PicResource::new(&data).unwrap();
    let program = picture.get_instructions();
    assert_eq!(program.len(), 4);
    assert!(matches!(
        program[0],
        DerivedPicRenderInstruction::SetColor(_, PictureBufferType::Picture, Some(1))
    ));
    match &program[1] {
        DerivedPicRenderInstruction::DrawLines(_, got) => {
            assert_eq!(got, &points(&[(10, 10), (20, 10)]))
        }
        other => panic!("unexpected {:?}", other),
    }
    match &program[2] {
        DerivedPicRenderInstruction::Fill(_, got) => assert_eq!(got, &points(&[(15, 15)])),
        other => panic!("unexpected {:?}", other),
    }
    assert!(matches!(
        program[3],
        DerivedPicRenderInstruction::Unimplemented(PicRenderInstruction::EndInstruction)
    ));
}

#[test]
fn empty_payload_decodes_to_an_empty_program() {
    let picture = PicResource::new(&vec![]).unwrap();
    assert!(picture.get_instructions().is_empty());
}

#[test]
fn colour_names_follow_the_palette() {
    let names = [
        "black",
        "blue",
        "green",
        "cyan",
        "red",
        "magenta",
        "brown",
        "light gray",
        "dark gray",
        "light blue",
        "light green",
        "light cyan",
        "light red",
        "light magenta",
        "yellow",
        "white",
    ];
    for (index, name) in names.iter().enumerate() {
        assert_eq!(get_color_str(index as u8), *name);
    }
    assert_eq!(get_color_str(0x10), "INVALID");
    assert_eq!(get_color_str(0xFF), "INVALID");
}

#[test]
fn an_opcode_outside_the_table_keeps_its_byte() {
    let data = [0xFB, 0x01, 0xFC, 0xFD, 0x02, 0x03];
    let (first, next) = decode(&data, 0);
    assert!(matches!(
        first,
        DerivedPicRenderInstruction::Unimplemented(PicRenderInstruction::Unknown(0xFB))
    ));
    assert_eq!(next, 2);
    let (second, next) = decode(&data, 2);
    assert!(matches!(
        second,
        DerivedPicRenderInstruction::Unimplemented(PicRenderInstruction::Unknown(0xFC))
    ));
    assert_eq!(next, 3);
    let (third, next) = decode(&data, 3);
    assert!(matches!(
        third,
        DerivedPicRenderInstruction::Unimplemented(PicRenderInstruction::Unknown(0xFD))
    ));
    assert_eq!(next, 6);
    let picture = PicResource::new(&data.to_vec()).unwrap();
    assert_eq!(picture.get_instructions().len(), 3);
    assert!(matches!(
        picture.get_instructions()[2],
        DerivedPicRenderInstruction::Unimplemented(PicRenderInstruction::Unknown(0xFD))
    ));
}
