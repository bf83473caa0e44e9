//! What the display does to the surface, pixel by pixel.
use vstd::prelude::*;

use super::{Chrome, PanelLayout, Region, StatusLine};
#[allow(unused_imports)]
use super::{
    background, band_top, can_be_laid_out, chosen_scale, cleared, contents_of, laid_out,
    label_scale, largest_scale, lemma_chosen, lemma_panel_bounds, lemma_panel_scales,
    lemma_scaled, lines_wf, panel_fits, roomy, rows_wf, tallest,
    title_scale, unclaimed, widest_label, widest_value, with_bar, with_box, with_centred,
    with_chrome, with_lines, with_panel, with_title, ACCENT, BAR, MOST_ROWS, MUTED, PANEL, TEXT,
    label_fits, band_height, bar_height, line_spacing, panel_height, panel_width, Contents,
    BACKGROUND_BOTTOM, BACKGROUND_TOP, MARGIN,
};
use crate::framebuffer::font::Text;
use crate::framebuffer::law::{law_fill, law_strips_match, law_text_stays_in_its_box};
#[allow(unused_imports)]
use crate::framebuffer::font::{reach, MOST};
#[allow(unused_imports)]
use crate::framebuffer::law::{on, same_shape};
use crate::framebuffer::{Color, Gradient, Model};
#[allow(unused_imports)]
use crate::framebuffer::{at_least_one, fits, greatest, least};

verus! {

/// Painting a strip keeps a surface's shape.
pub proof fn lemma_span_shape(
    surface: Model,
    start_x: u32,
    end_x: u32,
    start_y: u32,
    end_y: u32,
    paint: Gradient,
)
    requires
        surface.sound(),
        surface.width > 0,
        surface.height > 0,
    ensures
        surface.with_span(start_x, end_x, start_y, end_y, paint).sound(),
        same_shape(surface, surface.with_span(start_x, end_x, start_y, end_y, paint)),
{
    law_strips_match(surface, start_x, end_x, start_y, end_y, paint, 0, 0);
}

/// Whether a pixel is repainted by a clear.
pub open spec fn repainted(region: Region, start_y: u32, end_y: u32, x: int, y: int) -> bool {
    start_y <= y < end_y && !region.holds(x, y)
}

proof fn lemma_cleared(
    surface: Model,
    region: Region,
    start_y: u32,
    end_y: u32,
    x: int,
    y: int,
)
    requires
        surface.sound(),
        on(surface, x, y),
        region.x + region.width <= surface.width,
        region.y + region.height <= u32::MAX,
    ensures
        ({
            let after = cleared(surface, region, start_y, end_y);
            &&& after.sound()
            &&& same_shape(surface, after)
            &&& after.pixels[y][x] == if repainted(region, start_y, end_y, x, y) {
                surface.encoded(background(surface).shade(y))
            } else {
                surface.pixels[y][x]
            }
        }),
{
    let paint = background(surface);
    let bottom = (region.y + region.height) as u32;
    let above = least(end_y, region.y);
    law_strips_match(surface, 0, surface.width, start_y, above, paint, x, y);
    let one = if above > start_y {
        surface.with_span(0, surface.width, start_y, above, paint)
    } else {
        surface
    };
    let below = greatest(start_y, bottom);
    law_strips_match(one, 0, surface.width, below, end_y, paint, x, y);
    let two = if end_y > below {
        one.with_span(0, surface.width, below, end_y, paint)
    } else {
        one
    };
    let first = greatest(start_y, region.y);
    let last = least(end_y, bottom);
    law_strips_match(two, 0, region.x, first, last, paint, x, y);
    let three = two.with_span(0, region.x, first, last, paint);
    law_strips_match(
        three,
        (region.x + region.width) as u32,
        surface.width,
        first,
        last,
        paint,
        x,
        y,
    );
}

/// A clear keeps a surface's shape.
pub proof fn lemma_cleared_shape(surface: Model, region: Region, start_y: u32, end_y: u32)
    requires
        surface.sound(),
        roomy(surface.width, surface.height),
        region == unclaimed(surface.width, surface.height),
    ensures
        cleared(surface, region, start_y, end_y).sound(),
        same_shape(surface, cleared(surface, region, start_y, end_y)),
{
    lemma_cleared(surface, region, start_y, end_y, 0, 0);
}

/// A clear repaints every pixel of its rows with the background that a full
/// repaint would give it, and leaves the rectangle that was given away alone.
pub proof fn law_clearing_leaves_the_region(
    surface: Model,
    start_y: u32,
    end_y: u32,
    x: int,
    y: int,
)
    requires
        surface.sound(),
        roomy(surface.width, surface.height),
        on(surface, x, y),
    ensures
        ({
            let region = unclaimed(surface.width, surface.height);
            let after = cleared(surface, region, start_y, end_y);
            after.pixels[y][x] == if start_y <= y < end_y && !region.holds(x, y) {
                surface.encoded(background(surface).shade(y))
            } else {
                surface.pixels[y][x]
            }
        }),
{
    lemma_cleared(surface, unclaimed(surface.width, surface.height), start_y, end_y, x, y);
}

/// A centred line fits in numbers and keeps a surface's shape.
pub proof fn lemma_centred(surface: Model, y: u32, text: Text, color: u32, scale: u32)
    requires
        surface.sound(),
        surface.width > 0,
        surface.height > 0,
        text.wf(),
        1 <= scale <= 10,
        y <= 0x8000_0000,
    ensures
        fits(surface.centre(text, scale), y, text, scale),
        with_centred(surface, y, text, color, scale).sound(),
        same_shape(surface, with_centred(surface, y, text, color, scale)),
{
    lemma_scaled(reach(text.glyphs@) as u32, scale, MOST);
    lemma_scaled(text.cell_height, scale, MOST);
    law_text_stays_in_its_box(
        surface,
        surface.centre(text, scale),
        y,
        text,
        Color(color),
        scale,
        0,
        0,
    );
}

/// The bar keeps a surface's shape.
pub proof fn lemma_bar_shape(surface: Model, chrome: Chrome)
    requires
        surface.sound(),
        roomy(surface.width, surface.height),
        chrome.wf(),
        label_fits(surface.height, chrome.cell_height),
    ensures
        with_bar(surface, chrome).sound(),
        same_shape(surface, with_bar(surface, chrome)),
{
    lemma_bar(surface, chrome, 0, 0);
}

proof fn lemma_bar(surface: Model, chrome: Chrome, x: int, y: int)
    requires
        surface.sound(),
        roomy(surface.width, surface.height),
        chrome.wf(),
        label_fits(surface.height, chrome.cell_height),
        on(surface, x, y),
    ensures
        with_bar(surface, chrome).sound(),
        same_shape(surface, with_bar(surface, chrome)),
        y < surface.height - bar_height(surface.height) ==> with_bar(surface, chrome).pixels[y][x]
            == surface.pixels[y][x],
{
    let bar = bar_height(surface.height);
    let top = (surface.height - bar) as u32;
    let scale = label_scale(surface.height);
    lemma_scaled(chrome.cell_height, scale, MOST);
    lemma_scaled(reach(chrome.name.glyphs@) as u32, scale, MOST);
    lemma_scaled(reach(chrome.gap.glyphs@) as u32, scale, MOST);
    lemma_scaled(reach(chrome.status.glyphs@) as u32, scale, MOST);
    let label_y = (top + (bar - chrome.cell_height * scale) / 2) as u32;
    let status_x = (24 + reach(chrome.name.glyphs@) * scale + reach(chrome.gap.glyphs@)
        * scale) as u32;
    law_fill(surface, 0, top, surface.width, bar, Color(BAR), x, y);
    let one = surface.filled(0, top, surface.width, bar, Color(BAR));
    law_fill(one, 0, top, surface.width, 2, Color(ACCENT), x, y);
    let two = one.filled(0, top, surface.width, 2, Color(ACCENT));
    law_text_stays_in_its_box(two, 24, label_y, chrome.name, Color(ACCENT), scale, x, y);
    let three = two.with_text(24, label_y, chrome.name, Color(ACCENT), scale);
    law_text_stays_in_its_box(
        three,
        status_x,
        label_y,
        chrome.status,
        Color(MUTED),
        scale,
        x,
        y,
    );
}

/// Whether a layout leaves every position in it in a number.
pub open spec fn placed(
    width: u32,
    height: u32,
    layout: PanelLayout,
    cell_height: u32,
    rows: nat,
) -> bool {
    &&& roomy(width, height)
    &&& rows <= MOST_ROWS
    &&& 1 <= layout.text_scale <= 4
    &&& layout.padding == 12 * layout.text_scale
    &&& layout.line_spacing == cell_height * layout.text_scale + layout.text_scale * 3
    &&& layout.line_spacing <= 4 * MOST + 12
    &&& layout.value_offset <= 8 * MOST
    &&& layout.x <= 0x7FFF_FFFF
    &&& band_top(height) <= layout.y <= 0x7FFF_FFFF
    &&& 24 <= layout.width <= 12 * MOST + 96
    &&& layout.x + layout.width <= width
    &&& 24 <= layout.height <= tallest()
    &&& cell_height <= MOST
    &&& layout.height == rows * layout.line_spacing + 24 * layout.text_scale
}

pub proof fn lemma_widest(rows: Seq<StatusLine>, gap: Text)
    requires
        lines_wf(rows, gap),
    ensures
        widest_label(rows) <= MOST,
        widest_value(rows) <= MOST,
    decreases rows.len(),
{
    if rows.len() > 0 {
        let before = rows.drop_last();
        assert(lines_wf(before, gap)) by {
            assert forall|i: int| 0 <= i < before.len() implies (#[trigger] before[i]).label.wf()
                && before[i].value.wf() && before[i].label.cell_height == gap.cell_height
                && before[i].value.cell_height == gap.cell_height by {
                assert(before[i] == rows[i]);
            }
        }
        lemma_widest(before, gap);
        assert(rows.last() == rows[rows.len() - 1]);
    }
}

/// The panel of any rows leaves every position in a number.
pub proof fn lemma_layout(width: u32, height: u32, rows: Seq<StatusLine>, gap: Text)
    requires
        roomy(width, height),
        rows_wf(rows, gap),
    ensures
        placed(
            width,
            height,
            laid_out(width, height, contents_of(rows, gap)),
            gap.cell_height,
            rows.len(),
        ),
{
    let contents = contents_of(rows, gap);
    let largest = largest_scale(width);
    lemma_widest(rows, gap);
    lemma_chosen(width, height, contents, largest);
    let scale = chosen_scale(width, height, contents, largest);
    lemma_panel_bounds(contents, scale);
    let layout = laid_out(width, height, contents);
    assert(layout.line_spacing == line_spacing(contents, scale));
}

/// A row of the panel is inside it, and its end is in a number.
pub proof fn lemma_line(
    width: u32,
    height: u32,
    layout: PanelLayout,
    cell_height: u32,
    rows: nat,
    index: int,
)
    requires
        placed(width, height, layout, cell_height, rows),
        0 <= index < rows,
    ensures
        0 <= index * layout.line_spacing <= 64 * (4 * MOST + 12),
        index * layout.line_spacing + layout.line_spacing <= rows * layout.line_spacing,
        0 <= cell_height * layout.text_scale <= 4 * MOST,
{
    assert(0 <= index * layout.line_spacing && index * layout.line_spacing + layout.line_spacing
        <= rows * layout.line_spacing) by (nonlinear_arith)
        requires
            0 <= index,
            index + 1 <= rows,
            0 <= layout.line_spacing,
    ;
    assert(index * layout.line_spacing <= 64 * (4 * MOST + 12)) by (nonlinear_arith)
        requires
            0 <= index <= 64,
            0 <= layout.line_spacing <= 4 * MOST + 12,
    ;
    lemma_scaled(cell_height, layout.text_scale, MOST);
    assert(cell_height * layout.text_scale <= 4 * MOST) by (nonlinear_arith)
        requires
            0 <= cell_height <= MOST,
            0 <= layout.text_scale <= 4,
    ;
}

proof fn lemma_box(surface: Model, layout: PanelLayout, x: int, y: int)
    requires
        surface.sound(),
        on(surface, x, y),
        24 <= layout.height,
        layout.y + layout.height <= u32::MAX,
        24 <= layout.width,
        layout.x + layout.width <= u32::MAX,
    ensures
        with_box(surface, layout).sound(),
        same_shape(surface, with_box(surface, layout)),
        y < layout.y ==> with_box(surface, layout).pixels[y][x] == surface.pixels[y][x],
{
    law_fill(
        surface,
        layout.x,
        layout.y,
        layout.width,
        layout.height,
        Color(PANEL),
        x,
        y,
    );
    let one = surface.filled(layout.x, layout.y, layout.width, layout.height, Color(PANEL));
    law_fill(one, layout.x, layout.y, layout.width, 2, Color(ACCENT), x, y);
    let two = one.filled(layout.x, layout.y, layout.width, 2, Color(ACCENT));
    let low = (layout.y + layout.height - 2) as u32;
    law_fill(two, layout.x, low, layout.width, 2, Color(ACCENT), x, y);
    let three = two.filled(layout.x, low, layout.width, 2, Color(ACCENT));
    law_fill(three, layout.x, layout.y, 2, layout.height, Color(ACCENT), x, y);
    let four = three.filled(layout.x, layout.y, 2, layout.height, Color(ACCENT));
    law_fill(
        four,
        (layout.x + layout.width - 2) as u32,
        layout.y,
        2,
        layout.height,
        Color(ACCENT),
        x,
        y,
    );
}

proof fn lemma_lines(
    surface: Model,
    layout: PanelLayout,
    rows: Seq<StatusLine>,
    gap: Text,
    many: nat,
    x: int,
    y: int,
)
    requires
        surface.sound(),
        on(surface, x, y),
        rows_wf(rows, gap),
        many <= rows.len(),
        placed(surface.width, surface.height, layout, gap.cell_height, rows.len()),
    ensures
        with_lines(surface, layout, rows, many).sound(),
        same_shape(surface, with_lines(surface, layout, rows, many)),
        y < layout.y ==> with_lines(surface, layout, rows, many).pixels[y][x]
            == surface.pixels[y][x],
    decreases many,
{
    if many > 0 {
        let index = many - 1;
        lemma_lines(surface, layout, rows, gap, index as nat, x, y);
        lemma_line(
            surface.width,
            surface.height,
            layout,
            gap.cell_height,
            rows.len(),
            index,
        );
        let before = with_lines(surface, layout, rows, index as nat);
        let top = (layout.y + layout.padding + index * layout.line_spacing) as u32;
        let label_x = (layout.x + layout.padding) as u32;
        let value_x = (label_x + layout.value_offset) as u32;
        let row = rows[index];
        assert(row.label.wf() && row.value.wf());
        let scale = layout.text_scale;
        lemma_scaled(reach(row.label.glyphs@) as u32, scale, MOST);
        lemma_scaled(reach(row.value.glyphs@) as u32, scale, MOST);
        law_text_stays_in_its_box(before, label_x, top, row.label, Color(MUTED), scale, x, y);
        let labelled = before.with_text(label_x, top, row.label, Color(MUTED), scale);
        law_text_stays_in_its_box(labelled, value_x, top, row.value, Color(TEXT), scale, x, y);
    }
}

proof fn lemma_panel(
    surface: Model,
    rows: Seq<StatusLine>,
    gap: Text,
    tall: u32,
    x: int,
    y: int,
)
    requires
        surface.sound(),
        roomy(surface.width, surface.height),
        rows_wf(rows, gap),
        on(surface, x, y),
        tall <= tallest(),
    ensures
        ({
            let layout = laid_out(surface.width, surface.height, contents_of(rows, gap));
            let after = with_panel(surface, layout, rows, tall);
            &&& after.sound()
            &&& same_shape(surface, after)
            &&& y < band_top(surface.height) ==> after.pixels[y][x] == surface.pixels[y][x]
        }),
{
    let layout = laid_out(surface.width, surface.height, contents_of(rows, gap));
    let region = unclaimed(surface.width, surface.height);
    lemma_layout(surface.width, surface.height, rows, gap);
    let end = (layout.y + tall) as u32;
    lemma_cleared(surface, region, layout.y, end, x, y);
    let clean = cleared(surface, region, layout.y, end);
    lemma_box(clean, layout, x, y);
    lemma_lines(with_box(clean, layout), layout, rows, gap, rows.len(), x, y);
}

/// Redrawing the panel keeps a surface's shape.
pub proof fn lemma_panel_shape(surface: Model, rows: Seq<StatusLine>, gap: Text, tall: u32)
    requires
        surface.sound(),
        roomy(surface.width, surface.height),
        rows_wf(rows, gap),
        tall <= tallest(),
    ensures
        ({
            let layout = laid_out(surface.width, surface.height, contents_of(rows, gap));
            let after = with_panel(surface, layout, rows, tall);
            after.sound() && same_shape(surface, after)
        }),
{
    lemma_panel(surface, rows, gap, tall, 0, 0);
}

/// However often the panel is redrawn, and whatever it says, the rectangle that
/// was given away keeps every pixel of it.
pub proof fn law_the_panel_leaves_the_region(
    surface: Model,
    rows: Seq<StatusLine>,
    gap: Text,
    tall: u32,
    x: int,
    y: int,
)
    requires
        surface.sound(),
        roomy(surface.width, surface.height),
        rows_wf(rows, gap),
        tall <= tallest(),
        on(surface, x, y),
        unclaimed(surface.width, surface.height).holds(x, y),
    ensures
        ({
            let layout = laid_out(surface.width, surface.height, contents_of(rows, gap));
            with_panel(surface, layout, rows, tall).pixels[y][x] == surface.pixels[y][x]
        }),
{
    lemma_panel(surface, rows, gap, tall, x, y);
}

/// How far to the right a centred line reaches.
pub open spec fn right_edge(surface: Model, text: Text, scale: u32) -> int {
    surface.centre(text, scale) + reach(text.glyphs@) * at_least_one(scale)
}

/// Repainting the words round the panel keeps every pixel of the rectangle that
/// was given away, as long as none of the three lines of the title is so wide
/// that it reaches the rectangle.
pub proof fn law_the_chrome_leaves_the_region(surface: Model, chrome: Chrome, x: int, y: int)
    requires
        surface.sound(),
        roomy(surface.width, surface.height),
        chrome.wf(),
        label_fits(surface.height, chrome.cell_height),
        on(surface, x, y),
        unclaimed(surface.width, surface.height).holds(x, y),
        ({
            let big = title_scale(surface.width);
            let middle = greatest(big / 2, 2);
            let left = unclaimed(surface.width, surface.height).x;
            &&& right_edge(surface, chrome.title, big) <= left
            &&& right_edge(surface, chrome.subtitle, middle) <= left
            &&& right_edge(surface, chrome.tagline, greatest(middle / 2, 1)) <= left
        }),
    ensures
        with_chrome(surface, chrome).pixels[y][x] == surface.pixels[y][x],
{
    let region = unclaimed(surface.width, surface.height);
    let bar = bar_height(surface.height);
    let end = (surface.height - bar) as u32;
    lemma_cleared(surface, region, 0, end, x, y);
    let clean = cleared(surface, region, 0, end);
    let big = title_scale(surface.width);
    let middle = greatest(big / 2, 2);
    let small = greatest(middle / 2, 1);
    let title_y = surface.height / 7;
    lemma_scaled(chrome.cell_height, big, MOST);
    lemma_scaled(chrome.cell_height, middle, MOST);
    let subtitle_y = (title_y + chrome.cell_height * big + 12) as u32;
    let tagline_y = (subtitle_y + chrome.cell_height * middle + 8) as u32;
    lemma_beside(clean, title_y, chrome.title, TEXT, big, x, y);
    let one = with_centred(clean, title_y, chrome.title, TEXT, big);
    lemma_beside(one, subtitle_y, chrome.subtitle, ACCENT, middle, x, y);
    let two = with_centred(one, subtitle_y, chrome.subtitle, ACCENT, middle);
    lemma_beside(two, tagline_y, chrome.tagline, MUTED, small, x, y);
    let titled = with_title(clean, chrome);
    assert(titled == with_centred(two, tagline_y, chrome.tagline, MUTED, small));
    lemma_bar(titled, chrome, x, y);
}

proof fn lemma_beside(
    surface: Model,
    top: u32,
    text: Text,
    color: u32,
    scale: u32,
    x: int,
    y: int,
)
    requires
        surface.sound(),
        surface.width > 0,
        surface.height > 0,
        text.wf(),
        1 <= scale <= 10,
        top <= 0x8000_0000,
        on(surface, x, y),
        right_edge(surface, text, scale) <= x,
    ensures
        with_centred(surface, top, text, color, scale).sound(),
        same_shape(surface, with_centred(surface, top, text, color, scale)),
        with_centred(surface, top, text, color, scale).pixels[y][x] == surface.pixels[y][x],
{
    lemma_centred(surface, top, text, color, scale);
    law_text_stays_in_its_box(
        surface,
        surface.centre(text, scale),
        top,
        text,
        Color(color),
        scale,
        x,
        y,
    );
}

/// The panel lies where it may, on any surface it can be laid out on: inside the
/// surface from side to side, below the title block, and above the bar wherever
/// it fits at all; and no label reaches into the values.
pub proof fn law_the_panel_lies_in_its_band(
    width: u32,
    height: u32,
    rows: Seq<StatusLine>,
    gap: Text,
)
    requires
        lines_wf(rows, gap),
        can_be_laid_out(width, height, contents_of(rows, gap)),
    ensures
        ({
            let contents = contents_of(rows, gap);
            let layout = laid_out(width, height, contents);
            &&& layout.x + layout.width <= width
            &&& layout.y >= band_top(height)
            &&& panel_fits(width, height, contents, 1) ==> layout.y + layout.height <= band_top(
                height,
            ) + band_height(height)
            &&& layout.value_offset == (contents.labels + contents.gap) * layout.text_scale
            &&& forall|index: int|
                0 <= index < rows.len() ==> (reach((#[trigger] rows[index]).label.glyphs@)
                    + contents.gap) * layout.text_scale <= layout.value_offset
        }),
{
    let contents = contents_of(rows, gap);
    let largest = largest_scale(width);
    lemma_widest(rows, gap);
    lemma_chosen(width, height, contents, largest);
    if panel_fits(width, height, contents, 1) {
        lemma_chosen_fits(width, height, contents, largest);
    }
    let scale = chosen_scale(width, height, contents, largest);
    lemma_panel_scales(contents, scale, largest);
    assert forall|index: int| 0 <= index < rows.len() implies (reach(
        (#[trigger] rows[index]).label.glyphs@,
    ) + contents.gap) * scale <= (contents.labels + contents.gap) * scale by {
        lemma_each_label(rows, index);
        let label = reach(rows[index].label.glyphs@);
        assert((label + contents.gap) * scale <= (contents.labels + contents.gap) * scale)
            by (nonlinear_arith)
            requires
                label <= contents.labels,
                1 <= scale,
        ;
    }
}

/// No label is wider than the widest.
proof fn lemma_each_label(rows: Seq<StatusLine>, index: int)
    requires
        0 <= index < rows.len(),
    ensures
        reach(rows[index].label.glyphs@) <= widest_label(rows),
    decreases rows.len(),
{
    if index < rows.len() - 1 {
        lemma_each_label(rows.drop_last(), index);
        assert(rows.drop_last()[index] == rows[index]);
    }
}

/// The panel is inside the surface, starts below the rectangle that was given
/// away, and ends above the bar wherever it fits at all.
pub proof fn law_the_panel_stays_in_its_band(
    width: u32,
    height: u32,
    rows: Seq<StatusLine>,
    gap: Text,
)
    requires
        roomy(width, height),
        rows_wf(rows, gap),
    ensures
        ({
            let contents = contents_of(rows, gap);
            let layout = laid_out(width, height, contents);
            let region = unclaimed(width, height);
            &&& layout.x + layout.width <= width
            &&& layout.y >= region.y + region.height
            &&& panel_fits(width, height, contents, 1) ==> layout.y + layout.height <= height
                - bar_height(height) - 16
        }),
{
    let contents = contents_of(rows, gap);
    let largest = largest_scale(width);
    lemma_layout(width, height, rows, gap);
    lemma_widest(rows, gap);
    lemma_chosen(width, height, contents, largest);
    if panel_fits(width, height, contents, 1) {
        lemma_chosen_fits(width, height, contents, largest);
    }
    lemma_panel_bounds(contents, chosen_scale(width, height, contents, largest));
}

proof fn lemma_chosen_fits(width: u32, height: u32, contents: Contents, from: int)
    requires
        1 <= from,
        panel_fits(width, height, contents, 1),
    ensures
        panel_fits(width, height, contents, chosen_scale(width, height, contents, from)),
    decreases from,
{
    if from > 1 && !panel_fits(width, height, contents, from) {
        lemma_chosen_fits(width, height, contents, from - 1);
    }
}

/// No larger magnification than the chosen one fits.
pub proof fn law_the_largest_that_fits_is_chosen(
    width: u32,
    height: u32,
    contents: Contents,
    from: int,
    larger: int,
)
    requires
        1 <= from,
        chosen_scale(width, height, contents, from) < larger <= from,
    ensures
        !panel_fits(width, height, contents, larger),
    decreases from,
{
    if from > 1 && !panel_fits(width, height, contents, from) {
        if larger < from {
            law_the_largest_that_fits_is_chosen(width, height, contents, from - 1, larger);
        }
    }
}

/// The region that is left free lies in the upper right corner, 32 pixels from both
/// edges: a fifth of the screen wide, no more than a fifth of it high, and at least 32
/// pixels above where the panel may start.
pub proof fn law_where_the_free_region_is(width: u32, height: u32)
    requires
        roomy(width, height),
    ensures
        ({
            let region = unclaimed(width, height);
            &&& region.y == 32
            &&& region.x + region.width + 32 == width
            &&& 5 * region.width <= width < 5 * region.width + 5
            &&& 5 * region.height <= height
            &&& region.y + region.height + 32 <= height * 2 / 5
            &&& region.height == height / 5 || region.y + region.height + 32 == height * 2 / 5
        }),
{
}

/// What the display's colours are.
pub proof fn law_the_display_s_colours(surface: Model)
    ensures
        background(surface).top == Color(0x0B_1220),
        background(surface).bottom == Color(0x14_2A4A),
        background(surface).surface_height == surface.height,
        PANEL == 0x10_1C33,
        ACCENT == 0x21_8AFF,
        TEXT == 0xE6_EDF5,
        MUTED == 0x84_9AB8,
        BAR == 0x08_0E18,
{
}

/// How large things are: the bar a 22nd of the screen, but 28 pixels at least; its
/// letters twice their size where it is 44 high; the title between three and ten times
/// its letters' size, one for every 240 pixels; and the panel's up to four.
pub proof fn law_how_large_things_are(width: u32, height: u32)
    ensures
        bar_height(height) >= 28,
        22 * bar_height(height) <= height || bar_height(height) == 28,
        22 * bar_height(height) + 22 > height,
        label_scale(height) == if bar_height(height) >= 44 {
            2u32
        } else {
            1
        },
        3 <= title_scale(width) <= 10,
        720 <= width < 2640 ==> 240 * title_scale(width) <= width < 240 * title_scale(width) + 240,
        width < 720 ==> title_scale(width) == 3,
        width >= 2640 ==> title_scale(width) == 10,
        1 <= largest_scale(width) <= 4,
        480 <= width < 2400 ==> 480 * largest_scale(width) <= width < 480 * largest_scale(width)
            + 480,
        band_top(height) == height * 2 / 5,
        band_height(height) >= 0,
        height - bar_height(height) - 16 >= height * 2 / 5 ==> band_top(height) + band_height(
            height,
        ) + 16 + bar_height(height) == height,
{
}

/// The bar, beside its words: two rows of the accent above, and its own colour below
/// them.
pub proof fn law_the_bar(surface: Model, chrome: Chrome, x: int, y: int)
    requires
        surface.sound(),
        roomy(surface.width, surface.height),
        chrome.wf(),
        label_fits(surface.height, chrome.cell_height),
        on(surface, x, y),
        x < 24,
    ensures
        ({
            let top = surface.height - bar_height(surface.height);
            with_bar(surface, chrome).pixels[y][x] == if y < top {
                surface.pixels[y][x]
            } else if y < top + 2 {
                surface.encoded(Color(0x21_8AFF))
            } else {
                surface.encoded(Color(0x08_0E18))
            }
        }),
{
    let bar = bar_height(surface.height);
    let top = (surface.height - bar) as u32;
    let scale = label_scale(surface.height);
    lemma_scaled(chrome.cell_height, scale, MOST);
    lemma_scaled(reach(chrome.name.glyphs@) as u32, scale, MOST);
    lemma_scaled(reach(chrome.gap.glyphs@) as u32, scale, MOST);
    lemma_scaled(reach(chrome.status.glyphs@) as u32, scale, MOST);
    let label_y = (top + (bar - chrome.cell_height * scale) / 2) as u32;
    let status_x = (24 + reach(chrome.name.glyphs@) * scale + reach(chrome.gap.glyphs@)
        * scale) as u32;
    law_fill(surface, 0, top, surface.width, bar, Color(BAR), x, y);
    let one = surface.filled(0, top, surface.width, bar, Color(BAR));
    law_fill(one, 0, top, surface.width, 2, Color(ACCENT), x, y);
    let two = one.filled(0, top, surface.width, 2, Color(ACCENT));
    law_text_stays_in_its_box(two, 24, label_y, chrome.name, Color(ACCENT), scale, x, y);
    let three = two.with_text(24, label_y, chrome.name, Color(ACCENT), scale);
    law_text_stays_in_its_box(
        three,
        status_x,
        label_y,
        chrome.status,
        Color(MUTED),
        scale,
        x,
        y,
    );
}

/// What the bar says: the name 24 pixels from the left, and the status one gap behind
/// it, both in the middle of the bar's height.
pub proof fn law_what_the_bar_says(surface: Model, chrome: Chrome, label_y: u32, status_x: u32)
    requires
        roomy(surface.width, surface.height),
        label_fits(surface.height, chrome.cell_height),
        ({
            let top = surface.height - bar_height(surface.height);
            let above = label_y - top;
            let below = surface.height - label_y - chrome.cell_height * label_scale(surface.height);
            above == below || above + 1 == below
        }),
        status_x == 24 + (reach(chrome.name.glyphs@) + reach(chrome.gap.glyphs@)) * label_scale(
            surface.height,
        ),
    ensures
        ({
            let bar = bar_height(surface.height);
            let top = (surface.height - bar) as u32;
            let scale = label_scale(surface.height);
            with_bar(surface, chrome) == surface.filled(
                0,
                top,
                surface.width,
                bar,
                Color(0x08_0E18),
            ).filled(0, top, surface.width, 2, Color(0x21_8AFF)).with_text(
                24,
                label_y,
                chrome.name,
                Color(0x21_8AFF),
                scale,
            ).with_text(status_x, label_y, chrome.status, Color(0x84_9AB8), scale)
        }),
{
    let scale = label_scale(surface.height) as int;
    let name = reach(chrome.name.glyphs@) as int;
    let gap = reach(chrome.gap.glyphs@) as int;
    assert((name + gap) * scale == name * scale + gap * scale) by (nonlinear_arith);
}

/// What the screen is called: its title a seventh down, the subtitle twelve pixels
/// below it in half the size and the accent, and the tagline eight below that, muted.
pub proof fn law_what_the_title_says(surface: Model, chrome: Chrome)
    ensures
        ({
            let big = title_scale(surface.width);
            let middle = if big >= 4 {
                big / 2
            } else {
                2
            };
            let small = middle / 2;
            let first = surface.height / 7;
            let second = (first + chrome.cell_height * big + 12) as u32;
            let third = (second + chrome.cell_height * middle + 8) as u32;
            let one = with_centred(surface, first, chrome.title, 0xE6_EDF5, big);
            let two = with_centred(one, second, chrome.subtitle, 0x21_8AFF, middle);
            with_title(surface, chrome) == with_centred(two, third, chrome.tagline, 0x84_9AB8, small)
        }),
{
}

/// Text is centred by the surface's own width, in the colour that was asked for.
pub proof fn law_centred_text(surface: Model, y: u32, text: Text, color: u32, scale: u32)
    ensures
        with_centred(surface, y, text, color, scale) == surface.with_text(
            surface.centre(text, scale),
            y,
            text,
            Color(color),
            scale,
        ),
{
}

/// The panel's box: an edge of two pixels all round in the accent, and its own colour
/// inside. Outside of it nothing changes.
pub proof fn law_the_box(surface: Model, layout: PanelLayout, x: int, y: int)
    requires
        surface.sound(),
        on(surface, x, y),
        24 <= layout.height,
        layout.y + layout.height <= u32::MAX,
        24 <= layout.width,
        layout.x + layout.width <= u32::MAX,
    ensures
        ({
            let left = x - layout.x;
            let right = layout.x + layout.width - 1 - x;
            let above = y - layout.y;
            let below = layout.y + layout.height - 1 - y;
            with_box(surface, layout).pixels[y][x] == if left < 0 || right < 0 || above < 0 || below
                < 0 {
                surface.pixels[y][x]
            } else if left < 2 || right < 2 || above < 2 || below < 2 {
                surface.encoded(Color(0x21_8AFF))
            } else {
                surface.encoded(Color(0x10_1C33))
            }
        }),
{
    law_fill(
        surface,
        layout.x,
        layout.y,
        layout.width,
        layout.height,
        Color(PANEL),
        x,
        y,
    );
    let one = surface.filled(layout.x, layout.y, layout.width, layout.height, Color(PANEL));
    law_fill(one, layout.x, layout.y, layout.width, 2, Color(ACCENT), x, y);
    let two = one.filled(layout.x, layout.y, layout.width, 2, Color(ACCENT));
    let low = (layout.y + layout.height - 2) as u32;
    law_fill(two, layout.x, low, layout.width, 2, Color(ACCENT), x, y);
    let three = two.filled(layout.x, low, layout.width, 2, Color(ACCENT));
    law_fill(three, layout.x, layout.y, 2, layout.height, Color(ACCENT), x, y);
    let four = three.filled(layout.x, layout.y, 2, layout.height, Color(ACCENT));
    law_fill(
        four,
        (layout.x + layout.width - 2) as u32,
        layout.y,
        2,
        layout.height,
        Color(ACCENT),
        x,
        y,
    );
}

/// A line more: its label muted at the padding, its value bright behind the labels,
/// both as far down as the lines before it go.
pub proof fn law_one_line_more(
    surface: Model,
    layout: PanelLayout,
    rows: Seq<StatusLine>,
    many: nat,
    y: u32,
    label_x: u32,
    value_x: u32,
)
    requires
        many < rows.len(),
        y == layout.y + layout.padding + many * layout.line_spacing,
        label_x == layout.x + layout.padding,
        value_x == label_x + layout.value_offset,
    ensures
        with_lines(surface, layout, rows, many + 1) == with_lines(
            surface,
            layout,
            rows,
            many,
        ).with_text(
            label_x,
            y,
            rows[many as int].label,
            Color(0x84_9AB8),
            layout.text_scale,
        ).with_text(value_x, y, rows[many as int].value, Color(0xE6_EDF5), layout.text_scale),
        with_lines(surface, layout, rows, 0) == surface,
{
}

/// How a panel is laid out: twelve pixels of padding and three between lines for every
/// step of its scale, as wide as its widest label and value with a gap between them, and
/// in the middle of the screen and of its band.
pub proof fn law_how_a_panel_is_laid_out(
    width: u32,
    height: u32,
    rows: Seq<StatusLine>,
    gap: Text,
)
    requires
        lines_wf(rows, gap),
        can_be_laid_out(width, height, contents_of(rows, gap)),
    ensures
        ({
            let contents = contents_of(rows, gap);
            let layout = laid_out(width, height, contents);
            let scale = layout.text_scale as int;
            let all = (contents.labels + contents.gap + contents.values) * scale + 24 * scale;
            &&& 1 <= scale <= largest_scale(width)
            &&& layout.padding == 12 * scale
            &&& layout.line_spacing == contents.cell_height * scale + 3 * scale
            &&& layout.height == rows.len() * layout.line_spacing + 24 * scale
            &&& all < width ==> layout.width == all
            &&& all >= width ==> layout.width == width
            &&& width - layout.x - layout.width == layout.x || width - layout.x - layout.width
                == layout.x + 1
            &&& layout.height <= band_height(height) ==> ({
                let above = layout.y - band_top(height);
                let below = band_height(height) - above - layout.height;
                above == below || above + 1 == below
            })
            &&& layout.height > band_height(height) ==> layout.y == band_top(height)
        }),
{
    let contents = contents_of(rows, gap);
    let scale = chosen_scale(width, height, contents, largest_scale(width));
    lemma_widest(rows, gap);
    lemma_chosen(width, height, contents, largest_scale(width));
    lemma_panel_scales(contents, scale, largest_scale(width));
}

/// How wide the widest one is: no narrower than any, and as wide as one of them.
pub proof fn law_the_widest_of_all(rows: Seq<StatusLine>, index: int)
    requires
        0 <= index < rows.len(),
    ensures
        reach(rows[index].label.glyphs@) <= widest_label(rows),
        reach(rows[index].value.glyphs@) <= widest_value(rows),
        exists|i: int|
            0 <= i < rows.len() && reach((#[trigger] rows[i]).label.glyphs@) == widest_label(rows),
        exists|i: int|
            0 <= i < rows.len() && reach((#[trigger] rows[i]).value.glyphs@) == widest_value(rows),
    decreases rows.len(),
{
    let less = rows.drop_last();
    let last = rows.len() - 1;
    assert(rows[last] == rows.last());
    if rows.len() > 1 {
        if index < last {
            law_the_widest_of_all(less, index);
            assert(less[index] == rows[index]);
        } else {
            law_the_widest_of_all(less, 0);
        }
        let label = choose|i: int|
            0 <= i < less.len() && reach((#[trigger] less[i]).label.glyphs@) == widest_label(less);
        assert(rows[label] == less[label]);
        let value = choose|i: int|
            0 <= i < less.len() && reach((#[trigger] less[i]).value.glyphs@) == widest_value(less);
        assert(rows[value] == less[value]);
    } else {
        assert(widest_label(less) == 0 && widest_value(less) == 0);
    }
}

/// What a repaint is: the background down to the bar, the title on it and the bar
/// below; and what a panel is: the background behind it, its box and its lines.
pub proof fn law_in_what_order_things_are_painted(
    surface: Model,
    chrome: Chrome,
    layout: PanelLayout,
    rows: Seq<StatusLine>,
    tall: u32,
)
    requires
        surface.height >= bar_height(surface.height),
        layout.y + tall <= u32::MAX,
    ensures
        ({
            let region = unclaimed(surface.width, surface.height);
            let clean = cleared(
                surface,
                region,
                0,
                (surface.height - bar_height(surface.height)) as u32,
            );
            let behind = cleared(surface, region, layout.y, (layout.y + tall) as u32);
            &&& with_chrome(surface, chrome) == with_bar(with_title(clean, chrome), chrome)
            &&& with_panel(surface, layout, rows, tall) == with_lines(
                with_box(behind, layout),
                layout,
                rows,
                rows.len(),
            )
        }),
{
}

} // verus!
