//! Drawing on the linear framebuffer.
//!
//! A [`Framebuffer`] holds what every pixel of the surface is to be, and the
//! smallest rectangle covering what was drawn since it was last asked. Whoever
//! owns the display's memory takes that rectangle and copies it out.
//!
//! Everything is drawn by filling rectangles, so nothing that draws has to
//! remember to say what it touched.
use vstd::prelude::*;

use font::{Glyph, Text};
#[allow(unused_imports)]
use font::{lemma_reach_grows, reach};

pub mod font;
pub mod law;

verus! {

/// A 24-bit colour in `0x00RRGGBB` form.
#[derive(Debug, Clone, Copy, PartialEq, Eq, Structural)]
pub struct Color(pub u32);

/// Black, as the number of a [`Color`].
pub const BLACK: u32 = 0x0000_0000;

/// White, as the number of a [`Color`].
pub const WHITE: u32 = 0x00FF_FFFF;

/// The blue of borders and accents, as the number of a [`Color`].
pub const NEXUS_BLUE: u32 = 0x0021_8AFF;

/// The deep blue of the background, as the number of a [`Color`].
pub const NEXUS_DEEP: u32 = 0x000B_1220;

/// The red of a screen that reports a panic, as the number of a [`Color`].
pub const PANIC_RED: u32 = 0x00B0_1B1B;

/// How far `amount` of 255 goes from one level to another.
pub open spec fn mixed(from: u8, to: u8, amount: u8) -> u8 {
    ((from * (255 - amount) + to * amount) / 255) as u8
}

impl Color {
    /// How much red there is.
    pub open spec fn spec_red(self) -> u8 {
        ((self.0 / 0x1_0000) % 0x100) as u8
    }

    /// How much green there is.
    pub open spec fn spec_green(self) -> u8 {
        ((self.0 / 0x100) % 0x100) as u8
    }

    /// How much blue there is.
    pub open spec fn spec_blue(self) -> u8 {
        (self.0 % 0x100) as u8
    }

    /// The colour of three channels.
    pub open spec fn of(red: u8, green: u8, blue: u8) -> Color {
        Color((red * 0x1_0000 + green * 0x100 + blue) as u32)
    }

    /// The colour `amount` of 255 towards another.
    pub open spec fn towards(self, other: Color, amount: u8) -> Color {
        Color::of(
            mixed(self.spec_red(), other.spec_red(), amount),
            mixed(self.spec_green(), other.spec_green(), amount),
            mixed(self.spec_blue(), other.spec_blue(), amount),
        )
    }

    /// Build a colour from separate channels.
    pub fn rgb(red: u8, green: u8, blue: u8) -> (color: Self)
        ensures
            color == Color::of(red, green, blue),
    {
        Color(red as u32 * 0x1_0000 + green as u32 * 0x100 + blue as u32)
    }

    /// How much red there is.
    pub fn red(self) -> (level: u8)
        ensures
            level == self.spec_red(),
    {
        ((self.0 / 0x1_0000) % 0x100) as u8
    }

    /// How much green there is.
    pub fn green(self) -> (level: u8)
        ensures
            level == self.spec_green(),
    {
        ((self.0 / 0x100) % 0x100) as u8
    }

    /// How much blue there is.
    pub fn blue(self) -> (level: u8)
        ensures
            level == self.spec_blue(),
    {
        (self.0 % 0x100) as u8
    }

    /// Blend linearly towards `other`; `amount` is out of 255.
    pub fn blend(self, other: Color, amount: u8) -> (color: Color)
        ensures
            color == self.towards(other, amount),
    {
        let red: u8 = mix(self.red(), other.red(), amount);
        let green: u8 = mix(self.green(), other.green(), amount);
        let blue: u8 = mix(self.blue(), other.blue(), amount);
        Color::rgb(red, green, blue)
    }
}

proof fn lemma_mix(from: u8, to: u8, amount: u8)
    ensures
        0 <= from * (255 - amount) + to * amount <= 255 * 255,
        0 <= from * (255 - amount) <= 255 * 255,
        0 <= to * amount <= 255 * 255,
{
    assert(0 <= from * (255 - amount) <= 255 * (255 - amount)) by (nonlinear_arith)
        requires
            0 <= from <= 255,
            0 <= 255 - amount,
    ;
    assert(0 <= to * amount <= 255 * amount) by (nonlinear_arith)
        requires
            0 <= to <= 255,
            0 <= amount,
    ;
}

fn mix(from: u8, to: u8, amount: u8) -> (level: u8)
    ensures
        level == mixed(from, to, amount),
{
    proof {
        lemma_mix(from, to, amount);
    }
    let inverse: u32 = 255 - amount as u32;
    let sum: u32 = from as u32 * inverse + to as u32 * amount as u32;
    (sum / 255) as u8
}

/// In which order the channels of a pixel stand in memory.
#[derive(Debug, Clone, Copy, PartialEq, Eq, Structural)]
pub enum PixelFormat {
    /// Red, green, blue, nothing.
    Rgbx8888,
    /// Blue, green, red, nothing.
    Bgrx8888,
    Unknown,
}

/// What the firmware said of the framebuffer.
#[derive(Debug, Clone, Copy, PartialEq, Eq, Structural)]
pub struct FramebufferInfo {
    /// Whether the description is complete.
    pub valid: bool,
    pub phys_addr: u64,
    pub width: u32,
    pub height: u32,
    /// Pixels from the start of one row to the start of the next.
    pub stride: u32,
    pub bytes_per_pixel: u32,
    pub format: PixelFormat,
}

/// A rectangle: the right and the bottom are just outside.
#[derive(Debug, Clone, Copy, PartialEq, Eq, Structural)]
pub struct Bounds {
    pub left: u32,
    pub top: u32,
    pub right: u32,
    pub bottom: u32,
}

impl Bounds {
    /// Whether a pixel is inside.
    pub open spec fn holds(self, x: int, y: int) -> bool {
        self.left <= x < self.right && self.top <= y < self.bottom
    }
}

/// A vertical colour ramp, and the height it is measured against: the
/// surface's, so that a strip repainted on its own gets the colours a full
/// repaint would have given it.
#[derive(Debug, Clone, Copy, PartialEq, Eq, Structural)]
pub struct Gradient {
    /// The colour at the top of the surface.
    pub top: Color,
    /// The colour at the bottom of it.
    pub bottom: Color,
    /// The rows of the surface.
    pub surface_height: u32,
}

impl Gradient {
    /// The colour of a row.
    pub open spec fn shade(self, row: int) -> Color {
        let height = if self.surface_height == 0 {
            1
        } else {
            self.surface_height as int
        };
        let amount = row * 255 / height;
        self.top.towards(
            self.bottom,
            if amount > 255 {
                255
            } else {
                amount as u8
            },
        )
    }
}

/// A writable linear framebuffer.
pub struct Framebuffer {
    width: u32,
    height: u32,
    stride: u32,
    bytes_per_pixel: u32,
    format: PixelFormat,
    rows: Vec<Vec<u32>>,
    damage: Option<Bounds>,
}

/// The same, as a value.
#[verifier::ext_equal]
pub struct Model {
    pub width: u32,
    pub height: u32,
    pub stride: u32,
    pub bytes_per_pixel: u32,
    pub format: PixelFormat,
    /// The word of every pixel, by row and then by column.
    pub pixels: Seq<Seq<u32>>,
    /// The smallest rectangle covering what was drawn.
    pub damage: Option<Bounds>,
}

/// The lesser of two.
pub open spec fn least(left: u32, right: u32) -> u32 {
    if left < right {
        left
    } else {
        right
    }
}

/// The greater of two.
pub open spec fn greatest(left: u32, right: u32) -> u32 {
    if left < right {
        right
    } else {
        left
    }
}

/// The end of a run, no further than an edge.
pub open spec fn clipped(start: u32, length: u32, edge: u32) -> u32 {
    if start + length < edge {
        (start + length) as u32
    } else {
        edge
    }
}

/// The smallest rectangle covering another and what was covered before.
pub open spec fn joined(damage: Option<Bounds>, more: Bounds) -> Bounds {
    match damage {
        None => more,
        Some(before) => Bounds {
            left: least(before.left, more.left),
            top: least(before.top, more.top),
            right: greatest(before.right, more.right),
            bottom: greatest(before.bottom, more.bottom),
        },
    }
}

impl Model {
    /// A row for each of the height and a pixel for each of the width.
    pub open spec fn sound(self) -> bool {
        &&& self.format != PixelFormat::Unknown
        &&& self.pixels.len() == self.height
        &&& forall|y: int|
            0 <= y < self.height ==> (#[trigger] self.pixels[y]).len() == self.width
    }

    /// The word of a colour.
    pub open spec fn encoded(self, color: Color) -> u32 {
        match self.format {
            PixelFormat::Rgbx8888 => Color::of(
                color.spec_blue(),
                color.spec_green(),
                color.spec_red(),
            ).0,
            PixelFormat::Bgrx8888 => color.0,
            PixelFormat::Unknown => 0,
        }
    }

    /// What a rectangle covers of the surface.
    pub open spec fn clip(self, x: u32, y: u32, width: u32, height: u32) -> Bounds {
        Bounds {
            left: x,
            top: y,
            right: clipped(x, width, self.width),
            bottom: clipped(y, height, self.height),
        }
    }

    /// The surface with a rectangle filled.
    #[verifier::opaque]
    pub open spec fn filled(self, x: u32, y: u32, width: u32, height: u32, color: Color) -> Model {
        let inside = self.clip(x, y, width, height);
        if inside.left >= inside.right || inside.top >= inside.bottom {
            self
        } else {
            Model {
                pixels: Seq::new(
                    self.pixels.len(),
                    |row: int|
                        Seq::new(
                            self.pixels[row].len(),
                            |column: int|
                                if inside.holds(column, row) {
                                    self.encoded(color)
                                } else {
                                    self.pixels[row][column]
                                },
                        ),
                ),
                damage: Some(joined(self.damage, inside)),
                ..self
            }
        }
    }

    /// The surface with the first cells of a row of a glyph drawn.
    #[verifier::opaque]
    pub open spec fn with_cells(
        self,
        glyph: Glyph,
        x: u32,
        y: u32,
        color: Color,
        scale: u32,
        row: int,
        columns: nat,
    ) -> Model
        decreases columns,
    {
        if columns == 0 {
            self
        } else {
            let column = columns - 1;
            let before = self.with_cells(glyph, x, y, color, scale, row, column as nat);
            if glyph.lit(column, row) {
                before.filled(
                    (x + column * scale) as u32,
                    (y + row * scale) as u32,
                    scale,
                    scale,
                    color,
                )
            } else {
                before
            }
        }
    }

    /// The surface with the first rows of a glyph drawn.
    #[verifier::opaque]
    pub open spec fn with_rows(
        self,
        glyph: Glyph,
        x: u32,
        y: u32,
        color: Color,
        scale: u32,
        rows: nat,
    ) -> Model
        decreases rows,
    {
        if rows == 0 {
            self
        } else {
            self.with_rows(glyph, x, y, color, scale, (rows - 1) as nat).with_cells(
                glyph,
                x,
                y,
                color,
                scale,
                rows - 1,
                glyph.advance as nat,
            )
        }
    }

    /// The surface with a run of glyphs drawn.
    #[verifier::opaque]
    pub open spec fn with_glyphs(
        self,
        glyphs: Seq<Glyph>,
        cell_height: u32,
        x: u32,
        y: u32,
        color: Color,
        scale: u32,
    ) -> Model
        decreases glyphs.len(),
    {
        if glyphs.len() == 0 {
            self
        } else {
            self.with_glyphs(glyphs.drop_last(), cell_height, x, y, color, scale).with_rows(
                glyphs.last(),
                (x + reach(glyphs.drop_last()) * scale) as u32,
                y,
                color,
                scale,
                cell_height as nat,
            )
        }
    }

    /// The surface with a line of text drawn.
    pub open spec fn with_text(self, x: u32, y: u32, text: Text, color: Color, scale: u32) -> Model {
        self.with_glyphs(text.glyphs@, text.cell_height, x, y, color, at_least_one(scale))
    }

    /// Where a line of text starts that is centred.
    pub open spec fn centre(self, text: Text, scale: u32) -> u32 {
        let width = reach(text.glyphs@) * at_least_one(scale);
        if width < self.width {
            ((self.width - width) / 2) as u32
        } else {
            0
        }
    }

    /// The surface with the rows from `start_y` up to `end_y` of a gradient
    /// drawn across part of the width.
    #[verifier::opaque]
    pub open spec fn with_gradient(
        self,
        start_x: u32,
        end_x: u32,
        start_y: u32,
        end_y: int,
        gradient: Gradient,
    ) -> Model
        decreases end_y - start_y,
    {
        if end_y <= start_y || end_x <= start_x {
            self
        } else {
            let row = end_y - 1;
            self.with_gradient(start_x, end_x, start_y, row, gradient).filled(
                start_x,
                row as u32,
                (end_x - start_x) as u32,
                1,
                gradient.shade(row),
            )
        }
    }

    /// The same, no further than the edges of the surface.
    pub open spec fn with_span(
        self,
        start_x: u32,
        end_x: u32,
        start_y: u32,
        end_y: u32,
        gradient: Gradient,
    ) -> Model {
        self.with_gradient(
            start_x,
            least(end_x, self.width),
            start_y,
            least(end_y, self.height) as int,
            gradient,
        )
    }
}

/// One at least.
pub open spec fn at_least_one(scale: u32) -> u32 {
    if scale == 0 {
        1
    } else {
        scale
    }
}

/// Whether everything drawn from a corner on fits in a number.
pub open spec fn fits(x: u32, y: u32, text: Text, scale: u32) -> bool {
    &&& x + reach(text.glyphs@) * at_least_one(scale) <= u32::MAX
    &&& y + text.cell_height * at_least_one(scale) <= u32::MAX
}

impl View for Framebuffer {
    type V = Model;

    closed spec fn view(&self) -> Model {
        Model {
            width: self.width,
            height: self.height,
            stride: self.stride,
            bytes_per_pixel: self.bytes_per_pixel,
            format: self.format,
            pixels: Seq::new(self.rows@.len(), |y: int| self.rows@[y]@),
            damage: self.damage,
        }
    }
}

/// How many pixels wide and high a surface is that nothing was drawn on.
pub open spec fn blank(info: FramebufferInfo) -> Model {
    Model {
        width: info.width,
        height: info.height,
        stride: info.stride,
        bytes_per_pixel: info.bytes_per_pixel,
        format: info.format,
        pixels: Seq::new(
            info.height as nat,
            |y: int| Seq::new(info.width as nat, |x: int| 0u32),
        ),
        damage: None,
    }
}

impl Framebuffer {
    /// A row for each of the height and a pixel for each of the width.
    pub open spec fn wf(&self) -> bool {
        self@.sound()
    }

    /// Adopt the framebuffer the firmware described, if it is usable.
    ///
    /// Nothing has been drawn: that is not an empty rectangle, because the first
    /// paint has to be sent.
    pub fn new(info: &FramebufferInfo) -> (framebuffer: Option<Self>)
        ensures
            framebuffer is Some <==> info.valid && info.format != PixelFormat::Unknown,
            framebuffer matches Some(framebuffer) ==> framebuffer.wf() && framebuffer@ == blank(
                *info,
            ),
    {
        if !info.valid || info.format == PixelFormat::Unknown {
            return None;
        }
        let mut rows: Vec<Vec<u32>> = Vec::new();
        let mut y: u32 = 0;
        while y < info.height
            invariant
                y <= info.height,
                rows@.len() == y,
                forall|i: int|
                    0 <= i < y ==> (#[trigger] rows@[i])@ == Seq::new(
                        info.width as nat,
                        |x: int| 0u32,
                    ),
            decreases info.height - y,
        {
            let mut row: Vec<u32> = Vec::new();
            let mut x: u32 = 0;
            while x < info.width
                invariant
                    x <= info.width,
                    row@ == Seq::new(x as nat, |i: int| 0u32),
                decreases info.width - x,
            {
                row.push(0);
                x += 1;
                assert(row@ =~= Seq::new(x as nat, |i: int| 0u32));
            }
            rows.push(row);
            y += 1;
        }
        let framebuffer = Framebuffer {
            width: info.width,
            height: info.height,
            stride: info.stride,
            bytes_per_pixel: info.bytes_per_pixel,
            format: info.format,
            rows,
            damage: None,
        };
        assert(framebuffer@.pixels =~= blank(*info).pixels);
        Some(framebuffer)
    }

    /// How wide the surface is.
    pub fn width(&self) -> (width: u32)
        ensures
            width == self@.width,
    {
        self.width
    }

    /// How high the surface is.
    pub fn height(&self) -> (height: u32)
        ensures
            height == self@.height,
    {
        self.height
    }

    /// The word that a pixel is to be.
    pub fn pixel(&self, x: u32, y: u32) -> (word: u32)
        requires
            self.wf(),
            x < self@.width,
            y < self@.height,
        ensures
            word == self@.pixels[y as int][x as int],
    {
        assert(self@.pixels[y as int] == self.rows@[y as int]@);
        self.rows[y as usize][x as usize]
    }

    /// A colour in this framebuffer's channel order.
    pub fn encode(&self, color: Color) -> (word: u32)
        ensures
            word == self@.encoded(color),
    {
        match self.format {
            PixelFormat::Rgbx8888 => Color::rgb(color.blue(), color.green(), color.red()).0,
            PixelFormat::Bgrx8888 => color.0,
            PixelFormat::Unknown => 0,
        }
    }

    /// How many bytes into the display's memory a pixel is.
    pub fn offset(&self, x: u32, y: u32) -> (at: u64)
        requires
            (y * self@.stride + x) * self@.bytes_per_pixel <= u64::MAX,
        ensures
            at == (y * self@.stride + x) * self@.bytes_per_pixel,
    {
        assert(0 <= y * self.stride <= 0xFFFF_FFFF * 0xFFFF_FFFF) by (nonlinear_arith)
            requires
                0 <= y <= 0xFFFF_FFFF,
                0 <= self.stride <= 0xFFFF_FFFF,
        ;
        let pixels: u64 = y as u64 * self.stride as u64 + x as u64;
        pixels * self.bytes_per_pixel as u64
    }

    /// Set one pixel. Coordinates outside the surface are ignored.
    pub fn put_pixel(&mut self, x: u32, y: u32, color: Color)
        requires
            old(self).wf(),
        ensures
            final(self).wf(),
            final(self)@ == old(self)@.filled(x, y, 1, 1, color),
    {
        proof {
            reveal(Model::filled);
        }
        if x >= self.width || y >= self.height {
            return;
        }
        self.fill_rect(x, y, 1, 1, color);
    }

    fn touched(&mut self, left: u32, top: u32, right: u32, bottom: u32)
        ensures
            final(self)@ == (Model {
                damage: Some(joined(old(self)@.damage, Bounds { left, top, right, bottom })),
                ..old(self)@
            }),
    {
        let damage: Bounds = match self.damage {
            None => Bounds { left, top, right, bottom },
            Some(before) => Bounds {
                left: if before.left < left {
                    before.left
                } else {
                    left
                },
                top: if before.top < top {
                    before.top
                } else {
                    top
                },
                right: if before.right < right {
                    right
                } else {
                    before.right
                },
                bottom: if before.bottom < bottom {
                    bottom
                } else {
                    before.bottom
                },
            },
        };
        self.damage = Some(damage);
        assert(self@.pixels =~= old(self)@.pixels);
    }

    /// What has been drawn on since this was last called, and forget it.
    pub fn take_damage(&mut self) -> (damage: Option<Bounds>)
        requires
            old(self).wf(),
        ensures
            final(self).wf(),
            damage == old(self)@.damage,
            final(self)@ == (Model { damage: None, ..old(self)@ }),
    {
        let damage = self.damage;
        self.damage = None;
        assert(self@.pixels =~= old(self)@.pixels);
        damage
    }

    /// Fill an axis-aligned rectangle, clipped to the surface.
    pub fn fill_rect(&mut self, x: u32, y: u32, width: u32, height: u32, color: Color)
        requires
            old(self).wf(),
        ensures
            final(self).wf(),
            final(self)@ == old(self)@.filled(x, y, width, height, color),
    {
        proof {
            reveal(Model::filled);
        }
        let x_far: u32 = x.saturating_add(width);
        let x_end: u32 = if x_far < self.width {
            x_far
        } else {
            self.width
        };
        let y_far: u32 = y.saturating_add(height);
        let y_end: u32 = if y_far < self.height {
            y_far
        } else {
            self.height
        };
        if x >= x_end || y >= y_end {
            return;
        }
        let word: u32 = self.encode(color);
        self.touched(x, y, x_end, y_end);
        let ghost before = self@.pixels;
        let ghost after = old(self)@.filled(x, y, width, height, color);
        assert(before == old(self)@.pixels);
        let ghost middle = self@;
        let mut row: u32 = y;
        while row < y_end
            invariant
                x < x_end <= self.width,
                y <= row <= y_end <= self.height,
                self@ == (Model { pixels: self@.pixels, ..middle }),
                self@.pixels.len() == self.height,
                self.rows@.len() == self.height,
                before.len() == self.height,
                forall|i: int|
                    0 <= i < self.height ==> (#[trigger] before[i]).len() == self.width,
                forall|i: int|
                    0 <= i < self.height && !(y <= i < row) ==> (#[trigger] self.rows@[i])@
                        == before[i],
                forall|i: int|
                    y <= i < row ==> (#[trigger] self.rows@[i])@ == painted(
                        before[i],
                        x as int,
                        x_end as int,
                        word,
                    ),
            decreases y_end - row,
        {
            let at: usize = row as usize;
            let mut line: Vec<u32> = Vec::new();
            std::mem::swap(&mut line, &mut self.rows[at]);
            let ghost whole = line@;
            assert(whole == before[at as int]);
            let mut column: u32 = x;
            while column < x_end
                invariant
                    x <= column <= x_end <= whole.len(),
                    line@ == painted(whole, x as int, column as int, word),
                decreases x_end - column,
            {
                line.set(column as usize, word);
                column += 1;
                assert(line@ =~= painted(whole, x as int, column as int, word));
            }
            std::mem::swap(&mut line, &mut self.rows[at]);
            row += 1;
        }
        proof {
            assert(self@.pixels =~= after.pixels) by {
                assert forall|i: int| 0 <= i < before.len() implies #[trigger] self@.pixels[i]
                    == after.pixels[i] by {
                    assert(self@.pixels[i] == self.rows@[i]@);
                    assert(self@.pixels[i] =~= after.pixels[i]);
                }
            }
        }
    }

    /// Fill the whole surface with one colour.
    pub fn clear(&mut self, color: Color)
        requires
            old(self).wf(),
        ensures
            final(self).wf(),
            final(self)@ == old(self)@.filled(0, 0, old(self)@.width, old(self)@.height, color),
    {
        self.fill_rect(0, 0, self.width, self.height, color);
    }

    /// Draw one glyph, magnified `scale` times, and give how far the next one is
    /// from it.
    ///
    /// Only lit pixels are painted, so glyphs compose over what is there.
    pub fn draw_glyph(
        &mut self,
        x: u32,
        y: u32,
        glyph: &Glyph,
        cell_height: u32,
        color: Color,
        scale: u32,
    ) -> (advance: u32)
        requires
            old(self).wf(),
            glyph.wf(cell_height),
            x + glyph.advance * at_least_one(scale) <= u32::MAX,
            y + cell_height * at_least_one(scale) <= u32::MAX,
        ensures
            final(self).wf(),
            final(self)@ == old(self)@.with_rows(
                *glyph,
                x,
                y,
                color,
                at_least_one(scale),
                cell_height as nat,
            ),
            advance == glyph.advance * at_least_one(scale),
    {
        let scale: u32 = if scale == 0 {
            1
        } else {
            scale
        };
        let ghost before = self@;
        let mut row: u32 = 0;
        proof {
            reveal(Model::with_rows);
            reveal(Model::with_cells);
        }
        while row < cell_height
            invariant
                self.wf(),
                scale >= 1,
                glyph.wf(cell_height),
                x + glyph.advance * scale <= u32::MAX,
                y + cell_height * scale <= u32::MAX,
                row <= cell_height,
                self@ == before.with_rows(*glyph, x, y, color, scale, row as nat),
            decreases cell_height - row,
        {
            let ghost so_far = self@;
            proof {
                reveal(Model::with_rows);
                reveal(Model::with_cells);
            }
            assert(0 <= row * scale <= cell_height * scale) by (nonlinear_arith)
                requires
                    0 <= row <= cell_height,
                    scale >= 1,
            ;
            let pixel_y: u32 = y + row * scale;
            let line: &Vec<u8> = &glyph.rows[row as usize];
            let mut column: u32 = 0;
            while column < glyph.advance
                invariant
                    self.wf(),
                    scale >= 1,
                    row < cell_height,
                    glyph.wf(cell_height),
                    line@ == glyph.rows@[row as int]@,
                    pixel_y == y + row * scale,
                    x + glyph.advance * scale <= u32::MAX,
                    column <= glyph.advance,
                    self@ == so_far.with_cells(
                        *glyph,
                        x,
                        y,
                        color,
                        scale,
                        row as int,
                        column as nat,
                    ),
                decreases glyph.advance - column,
            {
                proof {
                    reveal(Model::with_cells);
                }
                if line[column as usize] >= font::THRESHOLD {
                    assert(0 <= column * scale <= glyph.advance * scale) by (nonlinear_arith)
                        requires
                            0 <= column <= glyph.advance,
                            scale >= 1,
                    ;
                    let pixel_x: u32 = x + column * scale;
                    if scale == 1 {
                        self.put_pixel(pixel_x, pixel_y, color);
                    } else {
                        self.fill_rect(pixel_x, pixel_y, scale, scale, color);
                    }
                }
                column += 1;
            }
            row += 1;
        }
        assert(0 <= glyph.advance * scale) by (nonlinear_arith)
            requires
                0 <= glyph.advance,
                scale >= 1,
        ;
        glyph.advance * scale
    }

    /// Draw a line of text, and give where the next glyph would stand.
    ///
    /// There is no wrapping: that is a decision of layout.
    pub fn draw_text(&mut self, x: u32, y: u32, text: &Text, color: Color, scale: u32) -> (end: u32)
        requires
            old(self).wf(),
            text.wf(),
            fits(x, y, *text, scale),
        ensures
            final(self).wf(),
            final(self)@ == old(self)@.with_text(x, y, *text, color, scale),
            end == x + reach(text.glyphs@) * at_least_one(scale),
    {
        let ghost before = self@;
        let ghost size = at_least_one(scale);
        let mut cursor: u32 = x;
        let mut at: usize = 0;
        proof {
            reveal(Model::with_glyphs);
            assert(text.glyphs@.take(0) =~= Seq::empty());
            assert(reach(text.glyphs@.take(0)) * size == 0) by (nonlinear_arith)
                requires
                    reach(text.glyphs@.take(0)) == 0,
            ;
        }
        while at < text.glyphs.len()
            invariant
                self.wf(),
                text.wf(),
                fits(x, y, *text, scale),
                size == at_least_one(scale),
                at <= text.glyphs@.len(),
                cursor == x + reach(text.glyphs@.take(at as int)) * size,
                self@ == before.with_glyphs(
                    text.glyphs@.take(at as int),
                    text.cell_height,
                    x,
                    y,
                    color,
                    size,
                ),
            decreases text.glyphs@.len() - at,
        {
            proof {
                reveal(Model::with_glyphs);
                let next = text.glyphs@.take(at + 1);
                let past = text.glyphs@.take(at as int);
                assert(next.drop_last() =~= past);
                lemma_reach_grows(text.glyphs@, at + 1);
                let glyph = text.glyphs@[at as int];
                assert(next.last() == glyph);
                assert(reach(next) * size == reach(past) * size + glyph.advance * size)
                    by (nonlinear_arith)
                    requires
                        reach(next) == reach(past) + glyph.advance,
                ;
                assert(reach(next) * size <= reach(text.glyphs@) * size) by (nonlinear_arith)
                    requires
                        reach(next) <= reach(text.glyphs@),
                        size >= 1,
                ;
                assert(glyph.wf(text.cell_height));
            }
            let step: u32 = self.draw_glyph(
                cursor,
                y,
                &text.glyphs[at],
                text.cell_height,
                color,
                scale,
            );
            cursor = cursor + step;
            at += 1;
        }
        assert(text.glyphs@.take(at as int) =~= text.glyphs@);
        cursor
    }

    /// The width in pixels that a line would take.
    pub fn text_width(text: &Text, scale: u32) -> (width: u32)
        requires
            text.wf(),
            reach(text.glyphs@) * at_least_one(scale) <= u32::MAX,
        ensures
            width == reach(text.glyphs@) * at_least_one(scale),
    {
        let units: u32 = font::measure(text);
        let size: u32 = if scale == 0 {
            1
        } else {
            scale
        };
        assert(0 <= units * size) by (nonlinear_arith)
            requires
                0 <= units,
                0 <= size,
        ;
        units * size
    }

    /// The height in pixels of one line.
    pub fn line_height(cell_height: u32, scale: u32) -> (height: u32)
        requires
            cell_height * at_least_one(scale) <= u32::MAX,
        ensures
            height == cell_height * at_least_one(scale),
    {
        let size: u32 = if scale == 0 {
            1
        } else {
            scale
        };
        assert(0 <= cell_height * size) by (nonlinear_arith)
            requires
                0 <= cell_height,
                0 <= size,
        ;
        cell_height * size
    }

    /// Draw a line of text centred between the sides.
    pub fn draw_text_centered(&mut self, y: u32, text: &Text, color: Color, scale: u32)
        requires
            old(self).wf(),
            text.wf(),
            fits(old(self)@.centre(*text, scale), y, *text, scale),
        ensures
            final(self).wf(),
            final(self)@ == old(self)@.with_text(
                old(self)@.centre(*text, scale),
                y,
                *text,
                color,
                scale,
            ),
    {
        let width: u32 = Self::text_width(text, scale);
        let x: u32 = self.width.saturating_sub(width) / 2;
        let _ = self.draw_text(x, y, text, color, scale);
    }

    /// Paint a gradient over rows, the whole width.
    pub fn vertical_gradient_region(&mut self, start_y: u32, end_y: u32, gradient: Gradient)
        requires
            old(self).wf(),
        ensures
            final(self).wf(),
            final(self)@ == old(self)@.with_span(
                0,
                old(self)@.width,
                start_y,
                end_y,
                gradient,
            ),
    {
        self.vertical_gradient_span(0, self.width, start_y, end_y, gradient);
    }

    /// The same, across part of the width: what makes it possible to repaint the
    /// background around something.
    pub fn vertical_gradient_span(
        &mut self,
        start_x: u32,
        end_x: u32,
        start_y: u32,
        end_y: u32,
        gradient: Gradient,
    )
        requires
            old(self).wf(),
        ensures
            final(self).wf(),
            final(self)@ == old(self)@.with_span(start_x, end_x, start_y, end_y, gradient),
    {
        let height: u32 = if gradient.surface_height == 0 {
            1
        } else {
            gradient.surface_height
        };
        let end_y: u32 = if end_y < self.height {
            end_y
        } else {
            self.height
        };
        let end_x: u32 = if end_x < self.width {
            end_x
        } else {
            self.width
        };
        proof {
            reveal(Model::with_gradient);
        }
        if end_x <= start_x {
            return;
        }
        let ghost before = self@;
        let mut row: u32 = start_y;
        while row < end_y
            invariant
                self.wf(),
                start_x < end_x,
                height >= 1,
                height == if gradient.surface_height == 0 {
                    1
                } else {
                    gradient.surface_height
                },
                start_y <= row,
                row <= end_y || end_y <= start_y == row,
                self@ == before.with_gradient(start_x, end_x, start_y, row as int, gradient),
            decreases end_y - row,
        {
            proof {
                reveal(Model::with_gradient);
            }
            let amount: u64 = row as u64 * 255 / height as u64;
            let level: u8 = if amount > 255 {
                255
            } else {
                amount as u8
            };
            let color: Color = gradient.top.blend(gradient.bottom, level);
            assert(color == gradient.shade(row as int));
            self.fill_rect(start_x, row, end_x - start_x, 1, color);
            row += 1;
        }
    }

    /// Paint a gradient across the whole surface.
    pub fn vertical_gradient(&mut self, top: Color, bottom: Color)
        requires
            old(self).wf(),
        ensures
            final(self).wf(),
            final(self)@ == old(self)@.with_span(
                0,
                old(self)@.width,
                0,
                old(self)@.height,
                (Gradient { top, bottom, surface_height: old(self)@.height }),
            ),
    {
        let gradient = Gradient { top, bottom, surface_height: self.height };
        self.vertical_gradient_span(0, self.width, 0, self.height, gradient);
    }
}

/// A row with a run of it painted.
pub open spec fn painted(row: Seq<u32>, start: int, end: int, word: u32) -> Seq<u32> {
    Seq::new(
        row.len(),
        |column: int|
            if start <= column < end {
                word
            } else {
                row[column]
            },
    )
}

} // verus!
