use agi_pic::common::AgiError;
use agi_pic::common::PosU8;
use agi_pic::common::RenderFault;
use agi_pic::fill::FillEdge;
use agi_pic::palette::get_color;
use agi_pic::pic::DerivedPicRenderInstruction;
use agi_pic::pic::PicRenderInstruction;
use agi_pic::pic::PicResource;
use agi_pic::pic::PictureBufferType;
use agi_pic::pic_render::outline_fill;
use agi_pic::pic_render::render;
use agi_pic::pic_render::render_to_buffers;
use agi_pic::pic_render::RenderOptions;
use agi_pic::pixel_buffer::InstructionIndex;
use agi_pic::pixel_buffer::PixelBuffer;
use agi_pic::vector::ShapeBuffer;
use agi_pic::vector::VectorFill;
use agi_pic::vector::VectorPath;

fn program(bytes: &[u8]) -> PicResource {
    PicResource::new(&bytes.to_vec()).unwrap()
}

fn at(pairs: &[(u8, u8)]) -> Vec<PosU8> {
    pairs.iter().map(|&(x, y)| PosU8::new(x, y)).collect()
}

fn tags_of(buffer: &PixelBuffer) -> Vec<Option<InstructionIndex>> {
    let mut tags = vec![];
    for y in 0..168 {
        for x in 0..160 {
            tags.push(buffer.get_pixel_instruction(x, y).unwrap());
        }
    }
    tags
}

fn amount(buffer: &PixelBuffer, color: u8) -> usize {
    buffer.get_pixels().iter().filter(|c| **c == get_color(color)).count()
}

/// Black box, then a green fill inside it.
const BOX_AND_FILL: [u8; 18] = [
    0xF0, 0x00, 0xF6, 10, 10, 14, 10, 14, 14, 10, 14, 10, 10, 0xF0, 0x02, 0xF8, 12, 12,
];

fn render_all(
    bytes: &[u8],
    options: RenderOptions,
    with_vectors: bool,
) -> (
    Result<(), AgiError>,
    PixelBuffer,
    PixelBuffer,
    Option<ShapeBuffer>,
) {
    let picture = program(bytes);
    let mut pic = Some(PixelBuffer::new(get_color(0x01)));
    let mut pri = Some(PixelBuffer::new(get_color(0x01)));
    let mut vectors = if with_vectors { Some(ShapeBuffer::new()) } else { None };
    let result = render_to_buffers(
        picture.get_instructions(),
        &options,
        &mut pic,
        &mut pri,
        &mut vectors,
    );
    (result, pic.unwrap(), pri.unwrap(), vectors)
}

#[test]
fn default_options_show_everything_without_outlines() {
    let options = RenderOptions::default();
    assert!(!options.render_only_selected_instruction);
    assert!(!options.show_fill_outlines);
}

#[test]
fn rendering_starts_from_the_background_colours() {
    let (result, pic, pri, _) = render_all(&[0xFF], RenderOptions::default(), false);
    assert_eq!(result, Ok(()));
    assert_eq!(amount(&pic, 0x0F), 26880);
    assert_eq!(amount(&pri, 0x04), 26880);
    assert!(tags_of(&pic).iter().all(|t| t.is_none()));
    assert!(tags_of(&pri).iter().all(|t| t.is_none()));
}

#[test]
fn empty_program_renders_blank_buffers() {
    let options = RenderOptions { render_only_selected_instruction: true, show_fill_outlines: true };
    let (result, pic, pri, vectors) = render_all(&[], options, true);
    assert_eq!(result, Ok(()));
    assert_eq!(amount(&pic, 0x0F), 26880);
    assert_eq!(amount(&pri, 0x04), 26880);
    assert!(vectors.unwrap().get_paths().is_empty());
    let (pic, pri) = render(&[], 0).unwrap();
    assert_eq!(amount(&pic, 0x0F), 26880);
    assert_eq!(amount(&pri, 0x04), 26880);
}

#[test]
fn box_and_fill_render_to_the_picture_buffer() {
    let (result, pic, pri, _) = render_all(&BOX_AND_FILL, RenderOptions::default(), false);
    assert_eq!(result, Ok(()));
    assert_eq!(amount(&pic, 0), 16);
    assert_eq!(amount(&pic, 2), 9);
    assert_eq!(amount(&pic, 0x0F), 26880 - 25);
    assert_eq!(pic.get_pixel(12, 12), Ok(get_color(2)));
    assert_eq!(
        pic.get_pixel_instruction(12, 12),
        Ok(Some(InstructionIndex::new_sub(3, 0)))
    );
    assert_eq!(
        pic.get_pixel_instruction(14, 12),
        Ok(Some(InstructionIndex::new_sub(1, 1)))
    );
    // The priority colour was never changed: red on red, but tagged.
    assert_eq!(amount(&pri, 0x04), 26880);
    assert_eq!(
        pri.get_pixel_instruction(14, 12),
        Ok(Some(InstructionIndex::new_sub(1, 1)))
    );
    assert_eq!(pri.get_pixel_instruction(12, 12), Ok(None));
}

#[test]
fn rendering_twice_gives_identical_buffers() {
    let picture = program(&BOX_AND_FILL);
    for cutoff in 0..4 {
        let (pic_a, pri_a) = render(picture.get_instructions(), cutoff).unwrap();
        let (pic_b, pri_b) = render(picture.get_instructions(), cutoff).unwrap();
        assert_eq!(pic_a.get_pixels_vec(), pic_b.get_pixels_vec());
        assert_eq!(pri_a.get_pixels_vec(), pri_b.get_pixels_vec());
        assert_eq!(tags_of(&pic_a), tags_of(&pic_b));
        assert_eq!(tags_of(&pri_a), tags_of(&pri_b));
    }
}

#[test]
fn what_the_buffers_held_before_does_not_matter() {
    let picture = program(&BOX_AND_FILL);
    let mut dirty = PixelBuffer::new(get_color(0x09));
    dirty.set_pixel(50, 50, Some(0x0C), InstructionIndex::new_sub(9, 9)).unwrap();
    let mut pic = Some(dirty);
    let mut pri: Option<PixelBuffer> = None;
    let mut vectors: Option<ShapeBuffer> = None;
    render_to_buffers(
        picture.get_instructions(),
        &RenderOptions::default(),
        &mut pic,
        &mut pri,
        &mut vectors,
    )
    .unwrap();
    let (fresh, _) = render(picture.get_instructions(), 3).unwrap();
    let pic = pic.unwrap();
    assert_eq!(pic.get_pixels_vec(), fresh.get_pixels_vec());
    assert_eq!(tags_of(&pic), tags_of(&fresh));
    assert!(pri.is_none());
    assert!(vectors.is_none());
}

#[test]
fn picture_renders_itself_up_to_an_instruction() {
    let picture = program(&BOX_AND_FILL);
    let (pic, pri) = picture.render(1).unwrap();
    let (same_pic, same_pri) = render(picture.get_instructions(), 1).unwrap();
    assert_eq!(amount(&pic, 0), 16);
    assert_eq!(pic.get_pixels_vec(), same_pic.get_pixels_vec());
    assert_eq!(pri.get_pixels_vec(), same_pri.get_pixels_vec());
    assert_eq!(tags_of(&pic), tags_of(&same_pic));
    let broken = program(&[0xF8, 200, 200]);
    assert_eq!(broken.render(0).err(), None);
    let broken = program(&[0xF0, 0x01, 0xF8, 200, 200]);
    assert_eq!(
        broken.render(1).err(),
        Some(AgiError::Render(RenderFault::PixelOutOfRange { x: 200, y: 200 }))
    );
}

#[test]
fn cutoff_replays_a_prefix() {
    let picture = program(&BOX_AND_FILL);
    let (pic, _) = render(picture.get_instructions(), 0).unwrap();
    assert_eq!(amount(&pic, 0x0F), 26880);
    let (pic, _) = render(picture.get_instructions(), 1).unwrap();
    assert_eq!(amount(&pic, 0), 16);
    assert_eq!(amount(&pic, 2), 0);
    let (pic, _) = render(picture.get_instructions(), 3).unwrap();
    assert_eq!(amount(&pic, 2), 9);
    let (late, _) = render(picture.get_instructions(), 1000).unwrap();
    assert_eq!(late.get_pixels_vec(), pic.get_pixels_vec());
}

#[test]
fn switching_drawing_off_changes_no_pixel() {
    let picture = program(&[0xF0, 0x01, 0xF6, 10, 10, 20, 10, 0xF1, 0xF3, 0xF9, 0x01, 0xFF]);
    let (pic_k, pri_k) = render(picture.get_instructions(), 1).unwrap();
    for later in 2..6 {
        let (pic, pri) = render(picture.get_instructions(), later).unwrap();
        assert_eq!(pic.get_pixels_vec(), pic_k.get_pixels_vec());
        assert_eq!(pri.get_pixels_vec(), pri_k.get_pixels_vec());
        assert_eq!(tags_of(&pic), tags_of(&pic_k));
        assert_eq!(tags_of(&pri), tags_of(&pri_k));
    }
}

#[test]
fn nothing_is_drawn_to_a_buffer_while_its_drawing_is_off() {
    let (result, pic, pri, _) = render_all(
        &[0xF1, 0xF2, 0x07, 0xF6, 10, 10, 12, 10, 0xF8, 50, 50, 0xF0, 0x03, 0xF6, 1, 1],
        RenderOptions::default(),
        false,
    );
    assert_eq!(result, Ok(()));
    assert_eq!(amount(&pic, 0x0F), 26879);
    assert_eq!(pic.get_pixel(1, 1), Ok(get_color(3)));
    assert_eq!(pic.get_pixel_instruction(10, 10), Ok(None));
    // The priority buffer took the line in grey, the fill and the last point.
    assert_eq!(amount(&pri, 0x07), 26880);
    assert_eq!(
        pri.get_pixel_instruction(11, 10),
        Ok(Some(InstructionIndex::new_sub(2, 0)))
    );
    assert_eq!(
        pri.get_pixel_instruction(50, 50),
        Ok(Some(InstructionIndex::new_sub(3, 0)))
    );
    assert_eq!(
        pri.get_pixel_instruction(1, 1),
        Ok(Some(InstructionIndex::new_sub(5, 0)))
    );
}

#[test]
fn line_off_the_surface_fails_the_rendering_and_keeps_what_was_drawn() {
    let (result, pic, _, vectors) = render_all(
        &[0xF0, 0x00, 0xF6, 1, 1, 2, 1, 0xF6, 158, 5, 170, 5, 0xF6, 3, 3],
        RenderOptions::default(),
        true,
    );
    assert_eq!(
        result,
        Err(AgiError::Render(RenderFault::PixelOutOfRange { x: 160, y: 5 }))
    );
    assert_eq!(amount(&pic, 0), 4);
    assert_eq!(pic.get_pixel(159, 5), Ok(get_color(0)));
    assert_eq!(pic.get_pixel(3, 3), Ok(get_color(0x0F)));
    assert_eq!(vectors.unwrap().get_paths().len(), 1);
    let picture = program(&[0xF6, 158, 5, 170, 5]);
    assert_eq!(
        render(picture.get_instructions(), 0).err(),
        Some(AgiError::Render(RenderFault::PixelOutOfRange { x: 160, y: 5 }))
    );
}

#[test]
fn lines_become_paths_in_the_picture_colour() {
    let (result, _, _, vectors) = render_all(
        &[0xF0, 0x0C, 0xF6, 10, 10, 20, 10, 30, 30, 0xF1, 0xF6, 1, 1, 0xF0, 0x01, 0xF7, 5, 5, 0x11],
        RenderOptions::default(),
        true,
    );
    assert_eq!(result, Ok(()));
    let vectors = vectors.unwrap();
    let paths = vectors.get_paths();
    assert_eq!(paths.len(), 2);
    assert_eq!(paths[0].points, at(&[(10, 10), (20, 10), (30, 30)]));
    assert_eq!(paths[0].color, get_color(0x0C));
    assert_eq!(paths[1].points, at(&[(5, 5), (6, 6)]));
    assert_eq!(paths[1].color, get_color(0x01));
}

#[test]
fn fill_outlines_follow_the_edges_when_shown() {
    let options = RenderOptions { render_only_selected_instruction: false, show_fill_outlines: true };
    let (result, _, _, vectors) = render_all(&BOX_AND_FILL, options, true);
    assert_eq!(result, Ok(()));
    let vectors = vectors.unwrap();
    let paths = vectors.get_paths();
    assert_eq!(paths.len(), 5);
    assert_eq!(paths[0].points, at(&[(10, 10), (14, 10), (14, 14), (10, 14), (10, 10)]));
    assert_eq!(paths[0].color, get_color(0));
    assert_eq!(paths[1].points, at(&[(14, 10), (14, 14)]));
    assert_eq!(paths[2].points, at(&[(10, 14), (10, 10)]));
    assert_eq!(paths[3].points, at(&[(14, 14), (10, 14)]));
    assert_eq!(paths[4].points, at(&[(10, 10), (14, 10)]));
    for path in &paths[1..] {
        assert_eq!(path.color, get_color(2));
    }
}

#[test]
fn fill_outlines_are_left_out_unless_shown() {
    let (result, _, _, vectors) = render_all(&BOX_AND_FILL, RenderOptions::default(), true);
    assert_eq!(result, Ok(()));
    assert_eq!(vectors.unwrap().get_paths().len(), 1);
}

#[test]
fn border_outlines_run_along_the_surface() {
    let options = RenderOptions { render_only_selected_instruction: false, show_fill_outlines: true };
    let (result, pic, _, vectors) = render_all(&[0xF0, 0x05, 0xF8, 0, 0], options, true);
    assert_eq!(result, Ok(()));
    assert_eq!(amount(&pic, 5), 26880);
    let vectors = vectors.unwrap();
    let paths = vectors.get_paths();
    assert_eq!(paths.len(), 4);
    assert_eq!(paths[0].points, at(&[(0, 0), (159, 0)]));
    assert_eq!(paths[1].points, at(&[(159, 0), (159, 167)]));
    assert_eq!(paths[2].points, at(&[(159, 167), (0, 167)]));
    assert_eq!(paths[3].points, at(&[(0, 167), (0, 0)]));
}

#[test]
fn fill_that_meets_another_fill_has_no_line_to_outline() {
    // Fill the left of a wall, erase the wall in white, fill from the wall.
    let bytes = [
        0xF0, 0x00, 0xF6, 80, 0, 80, 167, 0xF0, 0x02, 0xF8, 10, 10, 0xF0, 0x0F, 0xF6, 80, 0, 80,
        167, 0xF0, 0x03, 0xF8, 80, 5,
    ];
    let (result, pic, _, vectors) = render_all(&bytes, RenderOptions::default(), true);
    assert_eq!(result, Err(AgiError::Render(RenderFault::NotALine { index: 3 })));
    assert_eq!(amount(&pic, 3), 80 * 168);
    assert_eq!(vectors.unwrap().get_paths().len(), 2);
    let (result, pic, _, _) = render_all(&bytes, RenderOptions::default(), false);
    assert_eq!(result, Ok(()));
    assert_eq!(amount(&pic, 3), 80 * 168);
    assert_eq!(amount(&pic, 2), 80 * 168);
}

#[test]
fn only_the_last_instruction_is_shown_when_asked() {
    let options = RenderOptions { render_only_selected_instruction: true, show_fill_outlines: true };
    let (result, pic, pri, vectors) = render_all(&BOX_AND_FILL, options, true);
    assert_eq!(result, Ok(()));
    assert_eq!(amount(&pic, 2), 9);
    assert_eq!(amount(&pic, 0), 0);
    assert_eq!(amount(&pic, 0x0F), 26880 - 9);
    assert_eq!(amount(&pri, 0x04), 26880);
    // Tags stay, so the hidden box can still be found.
    assert_eq!(
        pic.get_pixel_instruction(14, 12),
        Ok(Some(InstructionIndex::new_sub(1, 1)))
    );
    let vectors = vectors.unwrap();
    let paths = vectors.get_paths();
    assert_eq!(paths.len(), 4);
    assert_eq!(paths[0].points, at(&[(14, 10), (14, 14)]));
}

#[test]
fn instructions_can_be_built_by_hand() {
    let instructions = vec![
        DerivedPicRenderInstruction::SetColor(
            PicRenderInstruction::SetPicColorAndEnablePicDraw,
            PictureBufferType::Picture,
            Some(6),
        ),
        DerivedPicRenderInstruction::DrawLines(PicRenderInstruction::AbsLine, at(&[(0, 0), (4, 2)])),
        DerivedPicRenderInstruction::Unimplemented(PicRenderInstruction::PlotWithPen),
    ];
    let (pic, _) = render(&instructions, 2).unwrap();
    assert_eq!(amount(&pic, 6), 5);
    for (x, y) in [(0, 0), (1, 1), (2, 1), (3, 2), (4, 2)] {
        assert_eq!(pic.get_pixel(x, y), Ok(get_color(6)));
    }
}

#[test]
fn edges_resolve_to_the_segments_they_name() {
    let picture = program(&[0xF6, 1, 2, 3, 4, 5, 6, 0xF6, 9, 9, 0xF8, 1, 1]);
    let code = picture.get_instructions();
    let edge = |base, sub| FillEdge::Line(InstructionIndex::new_sub(base, sub));
    assert_eq!(edge(0, 0).to_line(code), Ok([PosU8::new(1, 2), PosU8::new(3, 4)]));
    assert_eq!(edge(0, 1).to_line(code), Ok([PosU8::new(3, 4), PosU8::new(5, 6)]));
    assert_eq!(
        edge(0, 2).to_line(code),
        Err(AgiError::Render(RenderFault::SubIndexOutOfBounds { index: 0, sub_index: 2 }))
    );
    assert_eq!(edge(1, 0).to_line(code), Ok([PosU8::new(9, 9), PosU8::new(9, 9)]));
    assert_eq!(
        edge(1, 1).to_line(code),
        Err(AgiError::Render(RenderFault::SubIndexOutOfBounds { index: 1, sub_index: 1 }))
    );
    assert_eq!(
        edge(1, usize::MAX).to_line(code),
        Err(AgiError::Render(RenderFault::SubIndexOutOfBounds {
            index: 1,
            sub_index: usize::MAX
        }))
    );
    assert_eq!(
        edge(2, 0).to_line(code),
        Err(AgiError::Render(RenderFault::NotALine { index: 2 }))
    );
    assert_eq!(
        edge(3, 0).to_line(code),
        Err(AgiError::Render(RenderFault::InstructionOutOfRange { index: 3 }))
    );
    assert_eq!(
        FillEdge::TopBorder.to_line(code),
        Ok([PosU8::new(0, 0), PosU8::new(159, 0)])
    );
    assert_eq!(
        FillEdge::RightBorder.to_line(code),
        Ok([PosU8::new(159, 0), PosU8::new(159, 167)])
    );
    assert_eq!(
        FillEdge::BottomBorder.to_line(code),
        Ok([PosU8::new(159, 167), PosU8::new(0, 167)])
    );
    assert_eq!(
        FillEdge::LeftBorder.to_line(code),
        Ok([PosU8::new(0, 167), PosU8::new(0, 0)])
    );
}

#[test]
fn line_edge_of_an_empty_line_has_no_segment() {
    let picture = program(&[0xF6, 1]);
    assert_eq!(
        FillEdge::Line(InstructionIndex::new_sub(0, 0)).to_line(picture.get_instructions()),
        Err(AgiError::Render(RenderFault::SubIndexOutOfBounds { index: 0, sub_index: 0 }))
    );
}

#[test]
fn outline_stops_at_the_first_edge_without_a_line() {
    let picture = program(&[0xF6, 1, 2, 3, 4]);
    let fills = vec![
        vec![FillEdge::TopBorder],
        vec![
            FillEdge::Line(InstructionIndex::new_sub(0, 0)),
            FillEdge::Line(InstructionIndex::new_sub(4, 0)),
            FillEdge::LeftBorder,
        ],
    ];
    let mut vectors = ShapeBuffer::new();
    let result = outline_fill(&fills, picture.get_instructions(), 9, true, &mut vectors);
    assert_eq!(
        result,
        Err(AgiError::Render(RenderFault::InstructionOutOfRange { index: 4 }))
    );
    assert_eq!(vectors.get_paths().len(), 2);
    assert_eq!(vectors.get_paths()[1].points, at(&[(1, 2), (3, 4)]));
    assert_eq!(vectors.get_paths()[1].color, get_color(9));
    let mut hidden = ShapeBuffer::new();
    let result = outline_fill(&fills, picture.get_instructions(), 9, false, &mut hidden);
    assert_eq!(
        result,
        Err(AgiError::Render(RenderFault::InstructionOutOfRange { index: 4 }))
    );
    assert!(hidden.get_paths().is_empty());
}

#[test]
fn shape_buffer_keeps_paths_in_order() {
    let mut shapes = ShapeBuffer::new();
    assert!(shapes.get_paths().is_empty());
    shapes.add_path(VectorPath::from_point_list(&at(&[(1, 2), (3, 4), (5, 6)]), 0x0E));
    shapes.add_path(VectorPath::from_line([PosU8::new(7, 8), PosU8::new(9, 10)], 0x20));
    assert_eq!(shapes.get_paths().len(), 2);
    assert_eq!(shapes.get_paths()[0].points, at(&[(1, 2), (3, 4), (5, 6)]));
    assert_eq!(shapes.get_paths()[0].color, get_color(0x0E));
    assert_eq!(shapes.get_paths()[1].points, at(&[(7, 8), (9, 10)]));
    assert_eq!(shapes.get_paths()[1].color, get_color(0x20));
    shapes.clear();
    assert!(shapes.get_paths().is_empty());
}

#[test]
fn vector_fill_holds_corners_and_triangles() {
    let fill = VectorFill { vertices: at(&[(0, 0), (1, 0), (0, 1)]), triangles: vec![0, 1, 2] };
    assert_eq!(fill.vertices.len(), 3);
    assert_eq!(fill.triangles, vec![0, 1, 2]);
}
