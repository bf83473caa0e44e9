//! What drawing does to a surface, pixel by pixel.
use vstd::prelude::*;

use super::font::{Glyph, Text};
use super::{Color, Gradient, Model};
#[allow(unused_imports)]
use super::font::reach;
#[allow(unused_imports)]
use super::{
    at_least_one, blank, fits, greatest, least, mixed, Bounds, FramebufferInfo, PixelFormat, BLACK,
    NEXUS_BLUE, NEXUS_DEEP, PANIC_RED, WHITE,
};

verus! {

/// What went into a colour comes out of it.
pub proof fn law_channels_round_trip(red: u8, green: u8, blue: u8)
    ensures
        Color::of(red, green, blue).spec_red() == red,
        Color::of(red, green, blue).spec_green() == green,
        Color::of(red, green, blue).spec_blue() == blue,
{
}

/// Blending not at all keeps a colour of 24 bits, and blending all the way gives
/// the other one.
pub proof fn law_blending_ends_where_it_should(from: Color, to: Color)
    requires
        from.0 < 0x100_0000,
        to.0 < 0x100_0000,
    ensures
        from.towards(to, 0) == from,
        from.towards(to, 255) == to,
{
    assert(mixed(from.spec_red(), to.spec_red(), 0) == from.spec_red());
    assert(mixed(from.spec_green(), to.spec_green(), 0) == from.spec_green());
    assert(mixed(from.spec_blue(), to.spec_blue(), 0) == from.spec_blue());
    assert(mixed(from.spec_red(), to.spec_red(), 255) == to.spec_red());
    assert(mixed(from.spec_green(), to.spec_green(), 255) == to.spec_green());
    assert(mixed(from.spec_blue(), to.spec_blue(), 255) == to.spec_blue());
}

/// Whether a pixel is on a surface.
pub open spec fn on(surface: Model, x: int, y: int) -> bool {
    0 <= x < surface.width && 0 <= y < surface.height
}

/// Whether two surfaces have the same shape.
pub open spec fn same_shape(left: Model, right: Model) -> bool {
    &&& left.width == right.width
    &&& left.height == right.height
    &&& left.format == right.format
}

/// Filling a rectangle sets the pixels in it and no others.
pub proof fn law_fill(
    surface: Model,
    x: u32,
    y: u32,
    width: u32,
    height: u32,
    color: Color,
    at_x: int,
    at_y: int,
)
    requires
        surface.sound(),
        on(surface, at_x, at_y),
    ensures
        surface.filled(x, y, width, height, color).sound(),
        same_shape(surface, surface.filled(x, y, width, height, color)),
        surface.filled(x, y, width, height, color).pixels[at_y][at_x] == if x <= at_x < x + width
            && y <= at_y < y + height {
            surface.encoded(color)
        } else {
            surface.pixels[at_y][at_x]
        },
{
    reveal(Model::filled);
    let after = surface.filled(x, y, width, height, color);
    assert(after.pixels.len() == surface.height);
    assert(surface.pixels[at_y].len() == surface.width);
}

/// Whether every pixel that is no longer what it was is in the damage.
pub open spec fn covered(since: Model, now: Model) -> bool {
    forall|x: int, y: int|
        on(now, x, y) && (#[trigger] now.pixels[y][x]) != since.pixels[y][x] ==> (
        now.damage matches Some(bounds) && bounds.holds(x, y))
}

/// The damage covers everything that was drawn since it was last taken: filling
/// a rectangle keeps it so, and everything is drawn by filling rectangles.
pub proof fn law_damage_covers_what_changed(
    since: Model,
    now: Model,
    x: u32,
    y: u32,
    width: u32,
    height: u32,
    color: Color,
)
    requires
        now.sound(),
        covered(since, now),
    ensures
        covered(since, now.filled(x, y, width, height, color)),
{
    reveal(Model::filled);
    let after = now.filled(x, y, width, height, color);
    assert forall|at_x: int, at_y: int|
        on(after, at_x, at_y) && (#[trigger] after.pixels[at_y][at_x])
            != since.pixels[at_y][at_x] implies (after.damage matches Some(bounds) && bounds.holds(
        at_x,
        at_y,
    )) by {
        law_fill(now, x, y, width, height, color, at_x, at_y);
        if now.pixels[at_y][at_x] != since.pixels[at_y][at_x] {
        }
    }
}

proof fn lemma_cell(distance: int, scale: int, cell: int)
    requires
        scale > 0,
        distance >= 0,
    ensures
        distance / scale == cell <==> cell * scale <= distance < cell * scale + scale,
        distance / scale < cell <==> distance < cell * scale,
{
    vstd::arithmetic::div_mod::lemma_fundamental_div_mod(distance, scale);
    let whole = distance / scale;
    let part = distance % scale;
    assert(0 <= part < scale);
    assert(scale * whole == whole * scale) by (nonlinear_arith);
    if whole == cell {
    } else if whole < cell {
        assert(whole * scale + scale <= cell * scale) by (nonlinear_arith)
            requires
                whole + 1 <= cell,
                scale > 0,
        ;
    } else {
        assert(cell * scale + scale <= whole * scale) by (nonlinear_arith)
            requires
                cell + 1 <= whole,
                scale > 0,
        ;
    }
}

/// Whether a pixel is in a cell of a glyph's row that is lit, among the first
/// columns.
pub open spec fn in_lit_cell(
    glyph: Glyph,
    x: u32,
    y: u32,
    scale: u32,
    row: int,
    columns: int,
    at_x: int,
    at_y: int,
) -> bool {
    &&& y <= at_y
    &&& (at_y - y) / (scale as int) == row
    &&& x <= at_x
    &&& (at_x - x) / (scale as int) < columns
    &&& glyph.lit((at_x - x) / (scale as int), row)
}

proof fn lemma_cells(
    surface: Model,
    glyph: Glyph,
    x: u32,
    y: u32,
    color: Color,
    scale: u32,
    row: int,
    columns: nat,
    at_x: int,
    at_y: int,
)
    requires
        surface.sound(),
        on(surface, at_x, at_y),
        scale >= 1,
        0 <= row,
        columns <= glyph.advance,
        x + glyph.advance * scale <= u32::MAX,
        y + row * scale + scale <= u32::MAX,
    ensures
        ({
            let after = surface.with_cells(glyph, x, y, color, scale, row, columns);
            &&& after.sound()
            &&& same_shape(surface, after)
            &&& after.pixels[at_y][at_x] == if in_lit_cell(
                glyph,
                x,
                y,
                scale,
                row,
                columns as int,
                at_x,
                at_y,
            ) {
                surface.encoded(color)
            } else {
                surface.pixels[at_y][at_x]
            }
        }),
    decreases columns,
{
    reveal(Model::with_cells);
    if x <= at_x {
        lemma_cell(at_x - x, scale as int, columns as int);
        vstd::arithmetic::div_mod::lemma_div_pos_is_pos(at_x - x, scale as int);
    }
    if columns > 0 {
        let column = columns - 1;
        lemma_cells(surface, glyph, x, y, color, scale, row, column as nat, at_x, at_y);
        let before = surface.with_cells(glyph, x, y, color, scale, row, column as nat);
        assert(0 <= column * scale <= glyph.advance * scale && column * scale + scale
            <= glyph.advance * scale) by (nonlinear_arith)
            requires
                0 <= column,
                column + 1 <= glyph.advance,
                scale >= 1,
        ;
        assert(0 <= row * scale) by (nonlinear_arith)
            requires
                0 <= row,
                scale >= 1,
        ;
        let left = (x + column * scale) as u32;
        let top = (y + row * scale) as u32;
        law_fill(before, left, top, scale, scale, color, at_x, at_y);
        if x <= at_x {
            lemma_cell(at_x - x, scale as int, column as int);
        }
        if y <= at_y {
            lemma_cell(at_y - y, scale as int, row);
        }
    }
}

/// Whether a pixel is in a lit cell of the first rows of a glyph.
pub open spec fn in_lit_rows(
    glyph: Glyph,
    x: u32,
    y: u32,
    scale: u32,
    rows: int,
    at_x: int,
    at_y: int,
) -> bool {
    &&& y <= at_y
    &&& (at_y - y) / (scale as int) < rows
    &&& in_lit_cell(
        glyph,
        x,
        y,
        scale,
        (at_y - y) / (scale as int),
        glyph.advance as int,
        at_x,
        at_y,
    )
}

/// Drawing a glyph sets the pixels of its lit cells and no others: a cell is
/// `scale` pixels each way, and what is not lit shows what was there.
pub proof fn law_glyph(
    surface: Model,
    glyph: Glyph,
    x: u32,
    y: u32,
    color: Color,
    scale: u32,
    rows: nat,
    at_x: int,
    at_y: int,
)
    requires
        surface.sound(),
        on(surface, at_x, at_y),
        scale >= 1,
        x + glyph.advance * scale <= u32::MAX,
        y + rows * scale <= u32::MAX,
    ensures
        ({
            let after = surface.with_rows(glyph, x, y, color, scale, rows);
            &&& after.sound()
            &&& same_shape(surface, after)
            &&& after.pixels[at_y][at_x] == if in_lit_rows(
                glyph,
                x,
                y,
                scale,
                rows as int,
                at_x,
                at_y,
            ) {
                surface.encoded(color)
            } else {
                surface.pixels[at_y][at_x]
            }
        }),
    decreases rows,
{
    reveal(Model::with_rows);
    if y <= at_y {
        lemma_cell(at_y - y, scale as int, rows as int);
        vstd::arithmetic::div_mod::lemma_div_pos_is_pos(at_y - y, scale as int);
    }
    if rows > 0 {
        let row = rows - 1;
        assert(row * scale + scale == rows * scale && 0 <= row * scale) by (nonlinear_arith)
            requires
                0 <= row,
                row + 1 == rows,
                scale >= 1,
        ;
        law_glyph(surface, glyph, x, y, color, scale, row as nat, at_x, at_y);
        let before = surface.with_rows(glyph, x, y, color, scale, row as nat);
        lemma_cells(
            before,
            glyph,
            x,
            y,
            color,
            scale,
            row,
            glyph.advance as nat,
            at_x,
            at_y,
        );
    }
}

proof fn lemma_glyphs(
    surface: Model,
    glyphs: Seq<Glyph>,
    cell_height: u32,
    x: u32,
    y: u32,
    color: Color,
    scale: u32,
    at_x: int,
    at_y: int,
)
    requires
        surface.sound(),
        on(surface, at_x, at_y),
        scale >= 1,
        x + reach(glyphs) * scale <= u32::MAX,
        y + cell_height * scale <= u32::MAX,
    ensures
        ({
            let after = surface.with_glyphs(glyphs, cell_height, x, y, color, scale);
            &&& after.sound()
            &&& same_shape(surface, after)
            &&& !(x <= at_x < x + reach(glyphs) * scale && y <= at_y < y + cell_height * scale)
                ==> after.pixels[at_y][at_x] == surface.pixels[at_y][at_x]
        }),
    decreases glyphs.len(),
{
    reveal(Model::with_glyphs);
    if glyphs.len() > 0 {
        let past = glyphs.drop_last();
        let glyph = glyphs.last();
        assert(reach(glyphs) * scale == reach(past) * scale + glyph.advance * scale && 0 <= reach(
            past,
        ) * scale && 0 <= glyph.advance * scale) by (nonlinear_arith)
            requires
                reach(glyphs) == reach(past) + glyph.advance,
                0 <= reach(past),
                0 <= glyph.advance,
                scale >= 1,
        ;
        lemma_glyphs(surface, past, cell_height, x, y, color, scale, at_x, at_y);
        let before = surface.with_glyphs(past, cell_height, x, y, color, scale);
        let left = (x + reach(past) * scale) as u32;
        law_glyph(before, glyph, left, y, color, scale, cell_height as nat, at_x, at_y);
        if left <= at_x {
            lemma_cell(at_x - left, scale as int, glyph.advance as int);
        }
        if y <= at_y {
            lemma_cell(at_y - y, scale as int, cell_height as int);
        }
    }
}

/// Drawing a line of text touches nothing outside the rectangle it takes: as
/// wide as it measures, and one line high.
pub proof fn law_text_stays_in_its_box(
    surface: Model,
    x: u32,
    y: u32,
    text: Text,
    color: Color,
    scale: u32,
    at_x: int,
    at_y: int,
)
    requires
        surface.sound(),
        on(surface, at_x, at_y),
        fits(x, y, text, scale),
    ensures
        ({
            let after = surface.with_text(x, y, text, color, scale);
            &&& after.sound()
            &&& same_shape(surface, after)
            &&& !(x <= at_x < x + reach(text.glyphs@) * at_least_one(scale) && y <= at_y < y
                + text.cell_height * at_least_one(scale)) ==> after.pixels[at_y][at_x]
                == surface.pixels[at_y][at_x]
        }),
{
    lemma_glyphs(
        surface,
        text.glyphs@,
        text.cell_height,
        x,
        y,
        color,
        at_least_one(scale),
        at_x,
        at_y,
    );
}

proof fn lemma_gradient(
    surface: Model,
    start_x: u32,
    end_x: u32,
    start_y: u32,
    end_y: int,
    gradient: Gradient,
    at_x: int,
    at_y: int,
)
    requires
        surface.sound(),
        on(surface, at_x, at_y),
        end_x <= surface.width,
        end_y <= surface.height,
    ensures
        ({
            let after = surface.with_gradient(start_x, end_x, start_y, end_y, gradient);
            &&& after.sound()
            &&& same_shape(surface, after)
            &&& after.pixels[at_y][at_x] == if start_x <= at_x < end_x && start_y <= at_y < end_y {
                surface.encoded(gradient.shade(at_y))
            } else {
                surface.pixels[at_y][at_x]
            }
        }),
    decreases end_y - start_y,
{
    reveal(Model::with_gradient);
    if !(end_y <= start_y || end_x <= start_x) {
        let row = end_y - 1;
        lemma_gradient(surface, start_x, end_x, start_y, row, gradient, at_x, at_y);
        let before = surface.with_gradient(start_x, end_x, start_y, row, gradient);
        law_fill(
            before,
            start_x,
            row as u32,
            (end_x - start_x) as u32,
            1,
            gradient.shade(row),
            at_x,
            at_y,
        );
    }
}

/// A strip repainted on its own has the colours a full repaint would have put
/// there: the colour of a pixel depends on its row on the surface and on nothing
/// else of the strip.
pub proof fn law_strips_match(
    surface: Model,
    start_x: u32,
    end_x: u32,
    start_y: u32,
    end_y: u32,
    gradient: Gradient,
    at_x: int,
    at_y: int,
)
    requires
        surface.sound(),
        on(surface, at_x, at_y),
    ensures
        ({
            let after = surface.with_span(start_x, end_x, start_y, end_y, gradient);
            &&& after.sound()
            &&& same_shape(surface, after)
            &&& after.pixels[at_y][at_x] == if start_x <= at_x < end_x && start_y <= at_y < end_y {
                surface.encoded(gradient.shade(at_y))
            } else {
                surface.pixels[at_y][at_x]
            }
        }),
{
    lemma_gradient(
        surface,
        start_x,
        least(end_x, surface.width),
        start_y,
        least(end_y, surface.height) as int,
        gradient,
        at_x,
        at_y,
    );
}

/// Where the parts of a colour stand in its number: blue lowest, then green, then red.
pub proof fn law_where_channels_stand(red: u8, green: u8, blue: u8)
    ensures
        Color::of(red, green, blue).0 == 65536 * red + 256 * green + blue,
        BLACK == 0,
        WHITE == 0xFF_FFFF,
        NEXUS_BLUE == 0x21_8AFF,
        NEXUS_DEEP == 0x0B_1220,
        PANIC_RED == 0xB0_1B1B,
{
}

/// A mixture of two levels has as many parts in 255 of the second one as was asked
/// for, rounded down; so it lies between them.
pub proof fn law_a_mixture_is_in_proportion(from: u8, to: u8, amount: u8)
    ensures
        255 * mixed(from, to, amount) <= from * (255 - amount) + to * amount,
        from * (255 - amount) + to * amount < 255 * mixed(from, to, amount) + 255,
        least(from as u32, to as u32) <= mixed(from, to, amount) <= greatest(
            from as u32,
            to as u32,
        ),
{
    let low = least(from as u32, to as u32) as int;
    let high = greatest(from as u32, to as u32) as int;
    assert(255 * low <= from * (255 - amount) + to * amount <= 255 * high) by (nonlinear_arith)
        requires
            low <= from <= high,
            low <= to <= high,
            0 <= amount <= 255,
    ;
}

/// Each part of a mixed colour is a mixture of that part of the two.
pub proof fn law_parts_are_mixed_apart(from: Color, to: Color, amount: u8)
    ensures
        from.towards(to, amount).spec_red() == mixed(from.spec_red(), to.spec_red(), amount),
        from.towards(to, amount).spec_green() == mixed(
            from.spec_green(),
            to.spec_green(),
            amount,
        ),
        from.towards(to, amount).spec_blue() == mixed(from.spec_blue(), to.spec_blue(), amount),
{
}

/// Which byte of a pixel is which: of one kind of surface the lowest is red, of the
/// other it is blue, and green lies in the middle of both.
pub proof fn law_bytes_of_a_pixel(surface: Model, red: u8, green: u8, blue: u8)
    ensures
        surface.format is Rgbx8888 ==> surface.encoded(Color::of(red, green, blue)) == red + 256
            * green + 65536 * blue,
        surface.format is Bgrx8888 ==> surface.encoded(Color::of(red, green, blue)) == blue + 256
            * green + 65536 * red,
{
}

/// A gradient starts with its upper colour and goes to its lower one as far as the row
/// lies down the surface; a row below the surface has the lower one.
pub proof fn law_a_gradient_goes_down(gradient: Gradient, row: int, amount: u8)
    requires
        0 <= row,
        gradient.surface_height > 0,
    ensures
        gradient.shade(0) == gradient.top.towards(gradient.bottom, 0),
        row >= gradient.surface_height ==> gradient.shade(row) == gradient.top.towards(
            gradient.bottom,
            255,
        ),
        amount * gradient.surface_height <= 255 * row < (amount + 1) * gradient.surface_height
            ==> gradient.shade(row) == gradient.top.towards(gradient.bottom, amount),
{
    let height = gradient.surface_height as int;
    assert(0int * 255 / height == 0) by (nonlinear_arith)
        requires
            height > 0,
    ;
    if row >= height {
        assert(row * 255 / height >= 255) by (nonlinear_arith)
            requires
                row >= height,
                height > 0,
        ;
    }
    if amount * height <= 255 * row < (amount + 1) * height {
        assert(row * 255 / height == amount) by (nonlinear_arith)
            requires
                amount * height <= 255 * row < (amount + 1) * height,
                height > 0,
        ;
    }
}

/// What is damaged by filling a rectangle is the part of it that lies on the surface,
/// and nothing where none does. With damage from before it is the smallest rectangle
/// around both.
pub proof fn law_damage_is_no_larger_than_it_must_be(
    surface: Model,
    x: u32,
    y: u32,
    width: u32,
    height: u32,
    color: Color,
)
    ensures
        ({
            let after = surface.filled(x, y, width, height, color);
            let right = if x + width < surface.width {
                x + width
            } else {
                surface.width as int
            };
            let bottom = if y + height < surface.height {
                y + height
            } else {
                surface.height as int
            };
            let there = x < right && y < bottom;
            &&& !there ==> after == surface
            &&& there && surface.damage is None ==> after.damage == Some(
                Bounds { left: x, top: y, right: right as u32, bottom: bottom as u32 },
            )
            &&& there ==> (surface.damage matches Some(before) ==> (after.damage matches Some(now)
                && now.left <= before.left && now.left <= x && (now.left == before.left || now.left
                == x) && now.top <= before.top && now.top <= y && (now.top == before.top || now.top
                == y) && now.right >= before.right && now.right >= right && (now.right
                == before.right || now.right == right) && now.bottom >= before.bottom && now.bottom
                >= bottom && (now.bottom == before.bottom || now.bottom == bottom)))
        }),
{
    reveal(Model::filled);
}

/// A point of a letter is lit where its level is 128 or more.
pub proof fn law_what_is_lit(glyph: Glyph, column: int, row: int)
    ensures
        glyph.lit(column, row) <==> glyph.rows@[row]@[column] >= 128,
{
}

/// A text is as wide as its letters are together.
pub proof fn law_letters_take_their_widths(glyphs: Seq<Glyph>, one: Glyph)
    ensures
        reach(Seq::<Glyph>::empty()) == 0,
        reach(glyphs.push(one)) == reach(glyphs) + one.advance,
{
    assert(glyphs.push(one).drop_last() =~= glyphs);
}

/// Whether a pixel lies in a lit point of one letter of a text: that letter starts
/// where those before it end.
pub open spec fn in_lit_letter(
    glyphs: Seq<Glyph>,
    cell_height: u32,
    x: u32,
    y: u32,
    scale: u32,
    letter: int,
    at_x: int,
    at_y: int,
) -> bool {
    in_lit_rows(
        glyphs[letter],
        (x + reach(glyphs.take(letter)) * scale) as u32,
        y,
        scale,
        cell_height as int,
        at_x,
        at_y,
    )
}

/// Drawing text sets every pixel that lies in a lit point of one of its letters and
/// leaves the others as they were.
pub proof fn law_text(
    surface: Model,
    glyphs: Seq<Glyph>,
    cell_height: u32,
    x: u32,
    y: u32,
    color: Color,
    scale: u32,
    at_x: int,
    at_y: int,
)
    requires
        surface.sound(),
        on(surface, at_x, at_y),
        scale >= 1,
        x + reach(glyphs) * scale <= u32::MAX,
        y + cell_height * scale <= u32::MAX,
    ensures
        ({
            let after = surface.with_glyphs(glyphs, cell_height, x, y, color, scale);
            let lit = exists|letter: int|
                0 <= letter < glyphs.len() && #[trigger] in_lit_letter(
                    glyphs,
                    cell_height,
                    x,
                    y,
                    scale,
                    letter,
                    at_x,
                    at_y,
                );
            after.pixels[at_y][at_x] == if lit {
                surface.encoded(color)
            } else {
                surface.pixels[at_y][at_x]
            }
        }),
    decreases glyphs.len(),
{
    reveal(Model::with_glyphs);
    if glyphs.len() > 0 {
        let past = glyphs.drop_last();
        let glyph = glyphs.last();
        let last = glyphs.len() - 1;
        assert(reach(glyphs) * scale == reach(past) * scale + glyph.advance * scale && 0 <= reach(
            past,
        ) * scale && 0 <= glyph.advance * scale) by (nonlinear_arith)
            requires
                reach(glyphs) == reach(past) + glyph.advance,
                0 <= reach(past),
                0 <= glyph.advance,
                scale >= 1,
        ;
        lemma_glyphs(surface, past, cell_height, x, y, color, scale, at_x, at_y);
        law_text(surface, past, cell_height, x, y, color, scale, at_x, at_y);
        let before = surface.with_glyphs(past, cell_height, x, y, color, scale);
        let left = (x + reach(past) * scale) as u32;
        law_glyph(before, glyph, left, y, color, scale, cell_height as nat, at_x, at_y);
        assert(glyphs.take(last) =~= past);
        assert forall|letter: int| 0 <= letter < last implies #[trigger] in_lit_letter(
            glyphs,
            cell_height,
            x,
            y,
            scale,
            letter,
            at_x,
            at_y,
        ) == in_lit_letter(past, cell_height, x, y, scale, letter, at_x, at_y) by {
            assert(past.take(letter) =~= glyphs.take(letter));
        }
        if exists|letter: int|
            0 <= letter < past.len() && #[trigger] in_lit_letter(
                past,
                cell_height,
                x,
                y,
                scale,
                letter,
                at_x,
                at_y,
            ) {
            let letter = choose|letter: int|
                0 <= letter < past.len() && #[trigger] in_lit_letter(
                    past,
                    cell_height,
                    x,
                    y,
                    scale,
                    letter,
                    at_x,
                    at_y,
                );
            assert(in_lit_letter(glyphs, cell_height, x, y, scale, letter, at_x, at_y));
        }
        assert(in_lit_letter(glyphs, cell_height, x, y, scale, last, at_x, at_y) == in_lit_rows(
            glyph,
            left,
            y,
            scale,
            cell_height as int,
            at_x,
            at_y,
        ));
    }
}

/// Text that is centred has as much room on its left as on its right, or one less;
/// what is wider than the surface starts at its edge.
pub proof fn law_the_centre(surface: Model, text: Text, scale: u32)
    ensures
        ({
            let width = reach(text.glyphs@) * at_least_one(scale);
            let left = surface.centre(text, scale);
            let right = surface.width - left - width;
            &&& width < surface.width ==> right == left || right == left + 1
            &&& width >= surface.width ==> left == 0
        }),
        at_least_one(scale) >= 1,
        scale >= 1 ==> at_least_one(scale) == scale,
        at_least_one(0) == 1,
{
}

/// A new surface is black everywhere, has the machine's shape, and no damage.
pub proof fn law_a_new_surface_is_black(info: FramebufferInfo, x: int, y: int)
    requires
        0 <= x < info.width,
        0 <= y < info.height,
    ensures
        blank(info).pixels[y][x] == 0,
        blank(info).pixels.len() == info.height,
        blank(info).pixels[y].len() == info.width,
        blank(info).width == info.width,
        blank(info).height == info.height,
        blank(info).stride == info.stride,
        blank(info).bytes_per_pixel == info.bytes_per_pixel,
        blank(info).format == info.format,
        blank(info).damage is None,
{
}

} // verus!
