//! A grid of 160 by 168 pixels that remembers which instruction drew each
//! pixel.

use vstd::prelude::*;
use vstd::slice::slice_to_vec;
use crate::common::AgiError;
use crate::common::RenderFault;
use crate::common::VIEWPORT_HEIGHT;
use crate::common::VIEWPORT_PIXELS;
use crate::common::VIEWPORT_WIDTH;
use crate::palette::get_color;
use crate::palette::palette;
use crate::palette::Rgb;

verus! {

/// Names what drew a pixel: an instruction of the program and, within it,
/// the line segment or the fill point.
#[derive(Debug, Copy, Clone, PartialEq, Eq, Hash, Structural)]
pub struct InstructionIndex {
    pub base_index: usize,
    pub sub_index: usize,
}

impl Default for InstructionIndex {
    fn default() -> (tag: Self)
        ensures
            tag == InstructionIndex::first(),
    {
        Self { base_index: 0, sub_index: 0 }
    }
}

impl InstructionIndex {
    /// The tag of segment 0 of instruction 0.
    pub open spec fn first() -> InstructionIndex {
        InstructionIndex { base_index: 0, sub_index: 0 }
    }

    pub fn new_sub(base_index: usize, sub_index: usize) -> (tag: Self)
        ensures
            tag == (InstructionIndex { base_index, sub_index }),
    {
        Self { base_index, sub_index }
    }
}

/// Whether `(x, y)` lies on the drawing surface.
pub open spec fn in_viewport(x: int, y: int) -> bool {
    0 <= x < VIEWPORT_WIDTH && 0 <= y < VIEWPORT_HEIGHT
}

/// Where the pixel `(x, y)` stands in a buffer: rows follow one another.
pub open spec fn pixel_index(x: int, y: int) -> int {
    y * VIEWPORT_WIDTH + x
}

/// Mathematical content of a [`PixelBuffer`]: the colour of every pixel
/// and what drew it, row by row.
pub ghost struct BufferModel {
    pub pixels: Seq<Rgb>,
    pub tags: Seq<Option<InstructionIndex>>,
}

impl BufferModel {
    /// Both sequences have one entry for each pixel.
    pub open spec fn wf(self) -> bool {
        self.pixels.len() == VIEWPORT_PIXELS && self.tags.len() == VIEWPORT_PIXELS
    }

    /// A buffer of one colour in which every pixel has the tag `tag`.
    pub open spec fn uniform(color: Rgb, tag: Option<InstructionIndex>) -> BufferModel {
        BufferModel {
            pixels: Seq::new(VIEWPORT_PIXELS as nat, |i: int| color),
            tags: Seq::new(VIEWPORT_PIXELS as nat, |i: int| tag),
        }
    }

    /// A buffer of one colour that nothing has drawn to.
    pub open spec fn blank(color: Rgb) -> BufferModel {
        BufferModel::uniform(color, None)
    }

    /// The colour at `(x, y)`.
    pub open spec fn color_at(self, x: int, y: int) -> Rgb {
        self.pixels[pixel_index(x, y)]
    }

    /// What drew the pixel at `(x, y)`.
    pub open spec fn tag_at(self, x: int, y: int) -> Option<InstructionIndex> {
        self.tags[pixel_index(x, y)]
    }

    /// The buffer with the pixel at `(x, y)` set to `color` and tagged `tag`.
    pub open spec fn plot(self, x: int, y: int, color: Rgb, tag: InstructionIndex) -> BufferModel {
        BufferModel {
            pixels: self.pixels.update(pixel_index(x, y), color),
            tags: self.tags.update(pixel_index(x, y), Some(tag)),
        }
    }

    /// The buffer with every pixel that an instruction other than `index`
    /// drew set to `mask`. Tags stay.
    pub open spec fn isolate(self, index: usize, mask: Rgb) -> BufferModel {
        BufferModel {
            pixels: Seq::new(
                self.pixels.len(),
                |i: int|
                    if self.tags[i] is Some && self.tags[i]->0.base_index != index {
                        mask
                    } else {
                        self.pixels[i]
                    },
            ),
            tags: self.tags,
        }
    }
}

/// One of the two raster buffers of a picture.
pub struct PixelBuffer {
    pixels: Box<[Rgb; VIEWPORT_PIXELS]>,
    instruction_indexes: Box<[Option<InstructionIndex>; VIEWPORT_PIXELS]>,
}

impl View for PixelBuffer {
    type V = BufferModel;

    closed spec fn view(&self) -> BufferModel {
        BufferModel { pixels: self.pixels@, tags: self.instruction_indexes@ }
    }
}

impl PixelBuffer {
    /// A buffer always has one entry for each pixel of the surface.
    pub proof fn lemma_sized(&self)
        ensures
            self@.wf(),
    {
    }

    /// A buffer of one colour. Every pixel starts with the tag of
    /// instruction 0, segment 0.
    pub fn new(default_color: Rgb) -> (buffer: Self)
        ensures
            buffer@ == BufferModel::uniform(default_color, Some(InstructionIndex::first())),
    {
        let tag = InstructionIndex { base_index: 0, sub_index: 0 };
        let buffer = Self {
            pixels: Box::new([default_color; VIEWPORT_PIXELS]),
            instruction_indexes: Box::new([Some(tag); VIEWPORT_PIXELS]),
        };
        assert(buffer@.pixels == BufferModel::uniform(default_color, Some(tag)).pixels);
        assert(buffer@.tags == BufferModel::uniform(default_color, Some(tag)).tags);
        buffer
    }

    /// Sets every pixel to `color` and forgets what drew it.
    pub fn reset(&mut self, color: &Rgb)
        ensures
            final(self)@ == BufferModel::blank(*color),
    {
        let mut i: usize = 0;
        while i < VIEWPORT_PIXELS
            invariant
                i <= VIEWPORT_PIXELS,
                forall|j: int| 0 <= j < i ==> self.pixels@[j] == *color,
                forall|j: int| 0 <= j < i ==> self.instruction_indexes@[j] == None::<InstructionIndex>,
            decreases VIEWPORT_PIXELS - i,
        {
            self.pixels[i] = *color;
            self.instruction_indexes[i] = None;
            i += 1;
        }
        assert(self@.pixels == BufferModel::blank(*color).pixels);
        assert(self@.tags == BufferModel::blank(*color).tags);
    }

    /// Hides what other instructions drew: every pixel whose tag names an
    /// instruction other than `index` takes the colour `mask_color`.
    pub fn isolate_instruction_pixels(
        &mut self,
        index: usize,
        _sub_index: Option<usize>,
        mask_color: Rgb,
    )
        ensures
            final(self)@ == old(self)@.isolate(index, mask_color),
    {
        let mut i: usize = 0;
        while i < VIEWPORT_PIXELS
            invariant
                i <= VIEWPORT_PIXELS,
                self.instruction_indexes@ == old(self).instruction_indexes@,
                forall|j: int|
                    0 <= j < i ==> self.pixels@[j] == old(self)@.isolate(index, mask_color).pixels[j],
                forall|j: int| i <= j < VIEWPORT_PIXELS ==> self.pixels@[j] == old(self).pixels@[j],
            decreases VIEWPORT_PIXELS - i,
        {
            if let Some(inst) = self.instruction_indexes[i] {
                if inst.base_index != index {
                    self.pixels[i] = mask_color;
                }
            }
            i += 1;
        }
        assert(self@.pixels == old(self)@.isolate(index, mask_color).pixels);
    }

    /// Draws one pixel with palette entry `color` and tags it. With no
    /// colour nothing is drawn and nothing is checked.
    ///
    /// Fails for a pixel outside the surface and then leaves the buffer as
    /// it was.
    pub fn set_pixel(
        &mut self,
        x: usize,
        y: usize,
        color: Option<u8>,
        instruction_index: InstructionIndex,
    ) -> (r: Result<(), AgiError>)
        ensures
            final(self)@.wf(),
            color is None ==> r is Ok && final(self)@ == old(self)@,
            color is Some && in_viewport(x as int, y as int) ==> r is Ok && final(self)@ == old(
                self,
            )@.plot(x as int, y as int, palette(color->0), instruction_index),
            color is Some && !in_viewport(x as int, y as int) ==> final(self)@ == old(self)@ && r
                == Err::<(), AgiError>(AgiError::Render(RenderFault::PixelOutOfRange { x, y })),
    {
        if let Some(color) = color {
            if x >= VIEWPORT_WIDTH || y >= VIEWPORT_HEIGHT {
                return Err(AgiError::Render(RenderFault::PixelOutOfRange { x, y }));
            }
            let index: usize = y * VIEWPORT_WIDTH + x;
            let resolved = get_color(color);
            self.pixels[index] = resolved;
            self.instruction_indexes[index] = Some(instruction_index);
        }
        Ok(())
    }

    /// The colours of all pixels, row by row.
    pub fn get_pixels(&self) -> (pixels: &[Rgb])
        ensures
            pixels@ == self@.pixels,
            self@.wf(),
    {
        self.pixels.as_slice()
    }

    /// A copy of the colours of all pixels, row by row.
    pub fn get_pixels_vec(&self) -> (pixels: Vec<Rgb>)
        ensures
            pixels@ == self@.pixels,
            self@.wf(),
    {
        slice_to_vec(self.pixels.as_slice())
    }

    /// The colour of the pixel at `(x, y)`; fails outside the surface.
    pub fn get_pixel(&self, x: usize, y: usize) -> (r: Result<Rgb, AgiError>)
        ensures
            self@.wf(),
            in_viewport(x as int, y as int) ==> r == Ok::<Rgb, AgiError>(
                self@.color_at(x as int, y as int),
            ),
            !in_viewport(x as int, y as int) ==> r == Err::<Rgb, AgiError>(
                AgiError::Render(RenderFault::PixelOutOfRange { x, y }),
            ),
    {
        if x >= VIEWPORT_WIDTH || y >= VIEWPORT_HEIGHT {
            Err(AgiError::Render(RenderFault::PixelOutOfRange { x, y }))
        } else {
            let index: usize = y * VIEWPORT_WIDTH + x;
            Ok(self.pixels[index])
        }
    }

    /// What drew the pixel at `(x, y)`; fails outside the surface.
    pub fn get_pixel_instruction(&self, x: usize, y: usize) -> (r: Result<
        Option<InstructionIndex>,
        AgiError,
    >)
        ensures
            self@.wf(),
            in_viewport(x as int, y as int) ==> r == Ok::<Option<InstructionIndex>, AgiError>(
                self@.tag_at(x as int, y as int),
            ),
            !in_viewport(x as int, y as int) ==> r == Err::<Option<InstructionIndex>, AgiError>(
                AgiError::Render(RenderFault::PixelOutOfRange { x, y }),
            ),
    {
        if x >= VIEWPORT_WIDTH || y >= VIEWPORT_HEIGHT {
            Err(AgiError::Render(RenderFault::PixelOutOfRange { x, y }))
        } else {
            let index: usize = y * VIEWPORT_WIDTH + x;
            Ok(self.instruction_indexes[index])
        }
    }
}

} // verus!
