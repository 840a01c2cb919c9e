use agi_pic::common::AgiError;
use agi_pic::common::PosU8;
use agi_pic::common::RenderFault;
use agi_pic::fill::default_color_of;
use agi_pic::fill::pixel_fill;
use agi_pic::fill::pixel_fill_specific_buffer;
use agi_pic::fill::FillEdge;
use agi_pic::line::draw_pixel_lines;
use agi_pic::palette::get_color;
use agi_pic::pic::PictureBufferType;
use agi_pic::pixel_buffer::InstructionIndex;
use agi_pic::pixel_buffer::PixelBuffer;

fn clean(background: u8) -> PixelBuffer {
    let mut buffer = PixelBuffer::new(get_color(background));
    buffer.reset(&get_color(background));
    buffer
}

fn stroke(buffer: PixelBuffer, points: &[(u8, u8)], color: u8, index: usize) -> PixelBuffer {
    let lines: Vec<PosU8> = points.iter().map(|&(x, y)| PosU8::new(x, y)).collect();
    let mut pic = Some(buffer);
    let mut pri: Option<PixelBuffer> = None;
    draw_pixel_lines(&lines, &mut pic, Some(color), &mut pri, None, index).unwrap();
    pic.unwrap()
}

fn count_of(buffer: &PixelBuffer, color: u8) -> usize {
    buffer.get_pixels().iter().filter(|c| **c == get_color(color)).count()
}

fn line_edge(base: usize, sub: usize) -> FillEdge {
    FillEdge::Line(InstructionIndex::new_sub(base, sub))
}

#[test]
fn backgrounds_are_white_and_red() {
    assert_eq!(default_color_of(&PictureBufferType::Picture), 0x0F);
    assert_eq!(default_color_of(&PictureBufferType::Priority), 0x04);
}

#[test]
fn filling_with_the_background_colour_changes_nothing() {
    let mut pic = stroke(clean(0x0F), &[(10, 10), (14, 10)], 0, 0);
    let before_pixels = pic.get_pixels_vec();
    let before_tag = pic.get_pixel_instruction(12, 12);
    let edges = pixel_fill_specific_buffer(
        PosU8::new(12, 12),
        0x0F,
        &PictureBufferType::Picture,
        &mut pic,
        1,
        0,
    );
    assert_eq!(edges, Ok(vec![]));
    assert_eq!(pic.get_pixels_vec(), before_pixels);
    assert_eq!(pic.get_pixel_instruction(12, 12), before_tag);

    let mut pri = clean(0x04);
    let edges = pixel_fill_specific_buffer(
        PosU8::new(200, 200),
        0x04,
        &PictureBufferType::Priority,
        &mut pri,
        1,
        0,
    );
    assert_eq!(edges, Ok(vec![]));
    assert_eq!(count_of(&pri, 0x04), 26880);
}

#[test]
fn fill_stays_inside_a_box_and_meets_its_four_sides() {
    let mut pic = stroke(
        clean(0x0F),
        &[(10, 10), (14, 10), (14, 14), (10, 14), (10, 10)],
        0,
        0,
    );
    let edges = pixel_fill_specific_buffer(
        PosU8::new(12, 12),
        2,
        &PictureBufferType::Picture,
        &mut pic,
        1,
        0,
    );
    assert_eq!(
        edges,
        Ok(vec![line_edge(0, 1), line_edge(0, 3), line_edge(0, 2), line_edge(0, 0)])
    );
    assert_eq!(count_of(&pic, 2), 9);
    for y in 11..=13 {
        for x in 11..=13 {
            assert_eq!(pic.get_pixel(x, y), Ok(get_color(2)));
            assert_eq!(
                pic.get_pixel_instruction(x, y),
                Ok(Some(InstructionIndex::new_sub(1, 0)))
            );
        }
    }
    assert_eq!(count_of(&pic, 0), 16);
    assert_eq!(pic.get_pixel(9, 12), Ok(get_color(0x0F)));
    assert_eq!(pic.get_pixel_instruction(9, 12), Ok(None));
}

#[test]
fn fill_of_an_empty_surface_reaches_every_border() {
    let mut pic = clean(0x0F);
    let edges = pixel_fill_specific_buffer(
        PosU8::new(0, 0),
        1,
        &PictureBufferType::Picture,
        &mut pic,
        0,
        0,
    );
    assert_eq!(
        edges,
        Ok(vec![
            FillEdge::TopBorder,
            FillEdge::RightBorder,
            FillEdge::BottomBorder,
            FillEdge::LeftBorder
        ])
    );
    assert_eq!(count_of(&pic, 1), 26880);
    assert_eq!(
        pic.get_pixel_instruction(159, 167),
        Ok(Some(InstructionIndex::new_sub(0, 0)))
    );
}

#[test]
fn fill_beside_a_wall_reaches_three_borders() {
    let mut pic = stroke(clean(0x0F), &[(80, 0), (80, 167)], 0, 3);
    let edges = pixel_fill_specific_buffer(
        PosU8::new(100, 50),
        4,
        &PictureBufferType::Picture,
        &mut pic,
        5,
        1,
    );
    assert_eq!(
        edges,
        Ok(vec![
            line_edge(3, 0),
            FillEdge::TopBorder,
            FillEdge::RightBorder,
            FillEdge::BottomBorder
        ])
    );
    assert_eq!(count_of(&pic, 4), 79 * 168);
    assert_eq!(pic.get_pixel(79, 50), Ok(get_color(0x0F)));
    assert_eq!(pic.get_pixel(80, 50), Ok(get_color(0)));
    assert_eq!(
        pic.get_pixel_instruction(81, 50),
        Ok(Some(InstructionIndex::new_sub(5, 1)))
    );
}

#[test]
fn fill_from_a_drawn_pixel_paints_nothing_and_notes_it() {
    let mut pic = stroke(clean(0x0F), &[(5, 5), (9, 5)], 3, 2);
    let before = pic.get_pixels_vec();
    let edges = pixel_fill_specific_buffer(
        PosU8::new(7, 5),
        1,
        &PictureBufferType::Picture,
        &mut pic,
        4,
        0,
    );
    assert_eq!(edges, Ok(vec![line_edge(2, 0)]));
    assert_eq!(pic.get_pixels_vec(), before);
}

#[test]
fn fill_does_not_note_its_own_instruction() {
    let mut pic = stroke(clean(0x0F), &[(5, 5), (9, 5)], 3, 4);
    let edges = pixel_fill_specific_buffer(
        PosU8::new(7, 5),
        1,
        &PictureBufferType::Picture,
        &mut pic,
        4,
        0,
    );
    assert_eq!(edges, Ok(vec![]));
}

#[test]
fn fill_spreads_over_background_painted_by_a_line() {
    let mut pic = stroke(clean(0x0F), &[(80, 0), (80, 167)], 0, 0);
    let first = pixel_fill_specific_buffer(
        PosU8::new(10, 10),
        2,
        &PictureBufferType::Picture,
        &mut pic,
        1,
        0,
    );
    assert_eq!(
        first,
        Ok(vec![
            line_edge(0, 0),
            FillEdge::TopBorder,
            FillEdge::BottomBorder,
            FillEdge::LeftBorder
        ])
    );
    let mut pic = stroke(pic, &[(80, 0), (80, 167)], 0x0F, 2);
    let second = pixel_fill_specific_buffer(
        PosU8::new(80, 5),
        3,
        &PictureBufferType::Picture,
        &mut pic,
        3,
        0,
    );
    assert_eq!(
        second,
        Ok(vec![
            line_edge(1, 0),
            FillEdge::TopBorder,
            FillEdge::RightBorder,
            FillEdge::BottomBorder
        ])
    );
    assert_eq!(count_of(&pic, 2), 80 * 168);
    assert_eq!(count_of(&pic, 3), 80 * 168);
}

#[test]
fn fill_from_off_the_surface_is_a_render_error() {
    let mut pic = clean(0x0F);
    let edges = pixel_fill_specific_buffer(
        PosU8::new(160, 3),
        1,
        &PictureBufferType::Picture,
        &mut pic,
        0,
        0,
    );
    assert_eq!(
        edges,
        Err(AgiError::Render(RenderFault::PixelOutOfRange { x: 160, y: 3 }))
    );
    assert_eq!(count_of(&pic, 0x0F), 26880);
    let edges = pixel_fill_specific_buffer(
        PosU8::new(3, 168),
        1,
        &PictureBufferType::Picture,
        &mut pic,
        0,
        0,
    );
    assert_eq!(
        edges,
        Err(AgiError::Render(RenderFault::PixelOutOfRange { x: 3, y: 168 }))
    );
}

#[test]
fn priority_fill_spreads_over_red_only() {
    let mut pri = clean(0x04);
    pri.set_pixel(0, 0, Some(0x0F), InstructionIndex::new_sub(0, 0)).unwrap();
    let edges = pixel_fill_specific_buffer(
        PosU8::new(5, 5),
        0x0F,
        &PictureBufferType::Priority,
        &mut pri,
        1,
        0,
    );
    assert_eq!(
        edges,
        Ok(vec![
            line_edge(0, 0),
            FillEdge::TopBorder,
            FillEdge::RightBorder,
            FillEdge::BottomBorder,
            FillEdge::LeftBorder
        ])
    );
    assert_eq!(count_of(&pri, 0x0F), 26880);
    assert_eq!(
        pri.get_pixel_instruction(0, 0),
        Ok(Some(InstructionIndex::new_sub(0, 0)))
    );
    assert_eq!(
        pri.get_pixel_instruction(1, 0),
        Ok(Some(InstructionIndex::new_sub(1, 0)))
    );
}

#[test]
fn several_points_fill_both_buffers_in_turn() {
    let wall = stroke(clean(0x0F), &[(80, 0), (80, 167)], 0, 0);
    let mut pic = Some(wall);
    let mut pri = Some(clean(0x04));
    let seeds = vec![PosU8::new(10, 10), PosU8::new(100, 10), PosU8::new(11, 11)];
    let (pic_edges, pri_edges) =
        pixel_fill(&seeds, &mut pic, Some(2), &mut pri, Some(6), 7).unwrap();
    assert_eq!(
        pic_edges,
        vec![
            vec![
                line_edge(0, 0),
                FillEdge::TopBorder,
                FillEdge::BottomBorder,
                FillEdge::LeftBorder
            ],
            vec![
                line_edge(0, 0),
                FillEdge::TopBorder,
                FillEdge::RightBorder,
                FillEdge::BottomBorder
            ],
            vec![],
        ]
    );
    assert_eq!(
        pri_edges,
        vec![
            vec![
                FillEdge::TopBorder,
                FillEdge::RightBorder,
                FillEdge::BottomBorder,
                FillEdge::LeftBorder
            ],
            vec![],
            vec![],
        ]
    );
    let pic = pic.unwrap();
    let pri = pri.unwrap();
    assert_eq!(count_of(&pic, 2), 159 * 168);
    assert_eq!(count_of(&pri, 6), 26880);
    assert_eq!(
        pic.get_pixel_instruction(10, 10),
        Ok(Some(InstructionIndex::new_sub(7, 0)))
    );
    assert_eq!(
        pic.get_pixel_instruction(100, 10),
        Ok(Some(InstructionIndex::new_sub(7, 1)))
    );
    assert_eq!(
        pri.get_pixel_instruction(100, 10),
        Ok(Some(InstructionIndex::new_sub(7, 0)))
    );
}

#[test]
fn fill_is_skipped_for_a_buffer_without_colour_or_absent() {
    let mut pic = Some(clean(0x0F));
    let mut pri: Option<PixelBuffer> = None;
    let seeds = vec![PosU8::new(10, 10)];
    let (pic_edges, pri_edges) =
        pixel_fill(&seeds, &mut pic, None, &mut pri, Some(6), 0).unwrap();
    assert!(pic_edges.is_empty());
    assert!(pri_edges.is_empty());
    assert_eq!(count_of(&pic.unwrap(), 0x0F), 26880);
}

#[test]
fn fill_stops_at_the_first_point_off_the_surface() {
    let mut pic = Some(clean(0x0F));
    let mut pri = Some(clean(0x04));
    let seeds = vec![PosU8::new(10, 10), PosU8::new(10, 200), PosU8::new(11, 11)];
    let result = pixel_fill(&seeds, &mut pic, Some(0x0F), &mut pri, Some(6), 0);
    assert_eq!(
        result.err(),
        Some(AgiError::Render(RenderFault::PixelOutOfRange { x: 10, y: 200 }))
    );
    assert_eq!(count_of(&pri.unwrap(), 6), 26880);
    assert_eq!(count_of(&pic.unwrap(), 0x0F), 26880);
}
