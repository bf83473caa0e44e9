//! The boot display.
//!
//! Paints the screen that is shown while the system comes up: a title, a bar
//! along the bottom, and a status panel that keeps being redrawn. One rectangle
//! of the screen is given away and left alone by every clear.
//!
//! Everything a person reads arrives as glyphs: which words they are is
//! [`status`]'s choice and a translation's work.
use vstd::prelude::*;

use crate::framebuffer::font::{measure, Text};
use crate::framebuffer::{Color, Framebuffer, FramebufferInfo, Gradient};
#[allow(unused_imports)]
use crate::framebuffer::font::{reach, MOST};
#[allow(unused_imports)]
use crate::framebuffer::{blank, greatest, least, Model, PixelFormat};

pub mod law;
pub mod status;

verus! {

/// The background at the top.
pub const BACKGROUND_TOP: u32 = 0x000B_1220;

/// The background at the bottom.
pub const BACKGROUND_BOTTOM: u32 = 0x0014_2A4A;

/// What the panel is filled with.
pub const PANEL: u32 = 0x0010_1C33;

/// Borders and accents.
pub const ACCENT: u32 = 0x0021_8AFF;

/// Text that matters.
pub const TEXT: u32 = 0x00E6_EDF5;

/// Text that explains.
pub const MUTED: u32 = 0x0084_9AB8;

/// The bar along the bottom.
pub const BAR: u32 = 0x0008_0E18;

/// The room round the rectangle that is given away.
pub const MARGIN: u32 = 32;

/// The most rows a panel that is drawn may have, so that every position on the
/// surface fits in a number.
pub const MOST_ROWS: usize = 64;

/// A rectangle of the screen.
#[derive(Debug, Clone, Copy, PartialEq, Eq, Structural)]
pub struct Region {
    pub x: u32,
    pub y: u32,
    pub width: u32,
    pub height: u32,
}

impl Region {
    /// Whether a pixel is inside.
    pub open spec fn holds(self, x: int, y: int) -> bool {
        self.x <= x < self.x + self.width && self.y <= y < self.y + self.height
    }
}

/// Whether a surface is large enough to be laid out, and its height small enough
/// to be doubled.
pub open spec fn roomy(width: u32, height: u32) -> bool {
    40 <= width && 160 <= height <= 0x7FFF_FFFF
}

/// The rectangle of a surface that is given away: in the upper right, above the
/// rows the panel wipes.
pub open spec fn unclaimed(width: u32, height: u32) -> Region {
    Region {
        x: (width - width / 5 - MARGIN) as u32,
        y: MARGIN,
        width: width / 5,
        height: least((height * 2 / 5 - MARGIN * 2) as u32, height / 5),
    }
}

/// The display, once it has been adopted, and what was painted on it.
pub struct State {
    framebuffer: Option<Framebuffer>,
    geometry: Option<FramebufferInfo>,
    painted_height: u32,
    painted_locale: usize,
}

/// The same, as a value.
#[verifier::ext_equal]
pub struct StateModel {
    /// What is on the display.
    pub surface: Option<Model>,
    /// What the firmware said of it.
    pub geometry: Option<FramebufferInfo>,
    /// The tallest panel painted so far.
    pub painted_height: u32,
    /// The language last painted.
    pub painted_locale: usize,
}

/// A framebuffer, if there is one, as a value.
pub open spec fn surface_of(framebuffer: Option<Framebuffer>) -> Option<Model> {
    match framebuffer {
        Some(framebuffer) => Some(framebuffer@),
        None => None,
    }
}

impl View for State {
    type V = StateModel;

    closed spec fn view(&self) -> StateModel {
        StateModel {
            surface: surface_of(self.framebuffer),
            geometry: self.geometry,
            painted_height: self.painted_height,
            painted_locale: self.painted_locale,
        }
    }
}

impl State {
    /// The surface is the one that was described, and large enough.
    pub closed spec fn wf(&self) -> bool {
        &&& self.framebuffer matches Some(framebuffer) ==> {
            &&& framebuffer.wf()
            &&& self.geometry matches Some(info) && info.width == framebuffer@.width
                && info.height == framebuffer@.height && roomy(info.width, info.height)
        }
        &&& self.geometry is Some ==> self.framebuffer is Some
        &&& self.painted_height <= tallest()
    }

    /// No display yet, and no language.
    pub fn new() -> (state: Self)
        ensures
            state.wf(),
            state@ == (StateModel {
                surface: None,
                geometry: None,
                painted_height: 0,
                painted_locale: usize::MAX,
            }),
    {
        State { framebuffer: None, geometry: None, painted_height: 0, painted_locale: usize::MAX }
    }
}

/// Where the framebuffer is and what shape it has, if there is one.
pub fn geometry(state: &State) -> (info: Option<FramebufferInfo>)
    ensures
        info == state@.geometry,
{
    state.geometry
}

/// The rectangle of the screen that the display never clears, if there is a
/// screen.
pub fn unclaimed_region(state: &State) -> (region: Option<Region>)
    requires
        state.wf(),
    ensures
        region == match state@.geometry {
            Some(info) => Some(unclaimed(info.width, info.height)),
            None => None,
        },
{
    match state.geometry {
        Some(info) => Some(region_of(info.width, info.height)),
        None => None,
    }
}

fn region_of(width: u32, height: u32) -> (region: Region)
    requires
        roomy(width, height),
    ensures
        region == unclaimed(width, height),
{
    let band_top: u32 = height * 2 / 5;
    let part: u32 = width / 5;
    let tall: u32 = band_top - MARGIN * 2;
    let fifth: u32 = height / 5;
    Region {
        x: width - part - MARGIN,
        y: MARGIN,
        width: part,
        height: if tall < fifth {
            tall
        } else {
            fifth
        },
    }
}

/// The background of a surface.
pub open spec fn background(surface: Model) -> Gradient {
    Gradient {
        top: Color(BACKGROUND_TOP),
        bottom: Color(BACKGROUND_BOTTOM),
        surface_height: surface.height,
    }
}

/// A surface with the background repainted over rows, round a rectangle.
pub open spec fn cleared(surface: Model, region: Region, start_y: u32, end_y: u32) -> Model {
    let paint = background(surface);
    let bottom = (region.y + region.height) as u32;
    let above = least(end_y, region.y);
    let one = if above > start_y {
        surface.with_span(0, surface.width, start_y, above, paint)
    } else {
        surface
    };
    let below = greatest(start_y, bottom);
    let two = if end_y > below {
        one.with_span(0, surface.width, below, end_y, paint)
    } else {
        one
    };
    let first = greatest(start_y, region.y);
    let last = least(end_y, bottom);
    if last > first {
        two.with_span(0, region.x, first, last, paint).with_span(
            (region.x + region.width) as u32,
            surface.width,
            first,
            last,
            paint,
        )
    } else {
        two
    }
}

/// Repaint the background over rows, leaving the rectangle that was given away
/// alone. Every clear goes through here.
fn clear_rows(framebuffer: &mut Framebuffer, start_y: u32, end_y: u32)
    requires
        old(framebuffer).wf(),
        roomy(old(framebuffer)@.width, old(framebuffer)@.height),
    ensures
        final(framebuffer).wf(),
        final(framebuffer)@ == cleared(
            old(framebuffer)@,
            unclaimed(old(framebuffer)@.width, old(framebuffer)@.height),
            start_y,
            end_y,
        ),
        final(framebuffer)@.width == old(framebuffer)@.width,
        final(framebuffer)@.height == old(framebuffer)@.height,
{
    let ghost surface = framebuffer@;
    let width: u32 = framebuffer.width();
    let height: u32 = framebuffer.height();
    let region: Region = region_of(width, height);
    let paint = Gradient {
        top: Color(BACKGROUND_TOP),
        bottom: Color(BACKGROUND_BOTTOM),
        surface_height: height,
    };
    proof {
        law::lemma_cleared_shape(surface, region, start_y, end_y);
    }
    let above: u32 = if end_y < region.y {
        end_y
    } else {
        region.y
    };
    if above > start_y {
        framebuffer.vertical_gradient_region(start_y, above, paint);
    }
    let bottom: u32 = region.y + region.height;
    let below: u32 = if start_y < bottom {
        bottom
    } else {
        start_y
    };
    proof {
        law::lemma_span_shape(surface, 0, surface.width, start_y, above, paint);
    }
    if end_y > below {
        framebuffer.vertical_gradient_region(below, end_y, paint);
    }
    let first: u32 = if start_y < region.y {
        region.y
    } else {
        start_y
    };
    let last: u32 = if end_y < bottom {
        end_y
    } else {
        bottom
    };
    if last > first {
        framebuffer.vertical_gradient_span(0, region.x, first, last, paint);
        framebuffer.vertical_gradient_span(region.x + region.width, width, first, last, paint);
    }
}

/// The words round the panel, as glyphs.
#[derive(Debug)]
pub struct Chrome {
    /// How high every glyph of the face is.
    pub cell_height: u32,
    pub title: Text,
    pub subtitle: Text,
    pub tagline: Text,
    /// The name at the start of the bar.
    pub name: Text,
    /// The two spaces after it.
    pub gap: Text,
    /// What the bar says.
    pub status: Text,
}

impl Chrome {
    /// Every line is set in the one face.
    pub open spec fn wf(&self) -> bool {
        &&& self.title.wf() && self.title.cell_height == self.cell_height
        &&& self.subtitle.wf() && self.subtitle.cell_height == self.cell_height
        &&& self.tagline.wf() && self.tagline.cell_height == self.cell_height
        &&& self.name.wf() && self.name.cell_height == self.cell_height
        &&& self.gap.wf() && self.gap.cell_height == self.cell_height
        &&& self.status.wf() && self.status.cell_height == self.cell_height
    }
}

/// How high the bar along the bottom is.
pub open spec fn bar_height(height: u32) -> u32 {
    greatest(height / 22, 28)
}

/// A number, no lower and no higher than two others.
pub open spec fn clamped(value: u32, low: u32, high: u32) -> u32 {
    if value < low {
        low
    } else if value > high {
        high
    } else {
        value
    }
}

/// How much the words in the bar are magnified.
pub open spec fn label_scale(height: u32) -> u32 {
    clamped(bar_height(height) / 22, 1, 2)
}

/// How much the title is magnified.
pub open spec fn title_scale(width: u32) -> u32 {
    clamped(width / 240, 3, 10)
}

/// Whether the words in the bar are no higher than the bar.
pub open spec fn label_fits(height: u32, cell_height: u32) -> bool {
    cell_height * label_scale(height) <= bar_height(height)
}

/// A surface with a line of text centred on it.
pub open spec fn with_centred(surface: Model, y: u32, text: Text, color: u32, scale: u32) -> Model {
    surface.with_text(surface.centre(text, scale), y, text, Color(color), scale)
}

/// A surface with the title block on it.
pub open spec fn with_title(surface: Model, chrome: Chrome) -> Model {
    let big = title_scale(surface.width);
    let middle = greatest(big / 2, 2);
    let title_y = surface.height / 7;
    let subtitle_y = (title_y + chrome.cell_height * big + 12) as u32;
    let tagline_y = (subtitle_y + chrome.cell_height * middle + 8) as u32;
    let one = with_centred(surface, title_y, chrome.title, TEXT, big);
    let two = with_centred(one, subtitle_y, chrome.subtitle, ACCENT, middle);
    with_centred(two, tagline_y, chrome.tagline, MUTED, greatest(middle / 2, 1))
}

/// A surface with the bar on it.
pub open spec fn with_bar(surface: Model, chrome: Chrome) -> Model {
    let bar = bar_height(surface.height);
    let y = (surface.height - bar) as u32;
    let scale = label_scale(surface.height);
    let label_y = (y + (bar - chrome.cell_height * scale) / 2) as u32;
    let status_x = (24 + reach(chrome.name.glyphs@) * scale + reach(chrome.gap.glyphs@)
        * scale) as u32;
    surface.filled(0, y, surface.width, bar, Color(BAR)).filled(
        0,
        y,
        surface.width,
        2,
        Color(ACCENT),
    ).with_text(24, label_y, chrome.name, Color(ACCENT), scale).with_text(
        status_x,
        label_y,
        chrome.status,
        Color(MUTED),
        scale,
    )
}

/// A surface with everything but the panel on it.
pub open spec fn with_chrome(surface: Model, chrome: Chrome) -> Model {
    let clean = cleared(
        surface,
        unclaimed(surface.width, surface.height),
        0,
        (surface.height - bar_height(surface.height)) as u32,
    );
    with_bar(with_title(clean, chrome), chrome)
}

/// Paint the title block and the bar along the bottom.
///
/// The whole area is cleared first: a translation is as long as it is, and what
/// it replaces would still show.
fn paint_chrome(framebuffer: &mut Framebuffer, chrome: &Chrome)
    requires
        old(framebuffer).wf(),
        roomy(old(framebuffer)@.width, old(framebuffer)@.height),
        chrome.wf(),
        label_fits(old(framebuffer)@.height, chrome.cell_height),
    ensures
        final(framebuffer).wf(),
        final(framebuffer)@ == with_chrome(old(framebuffer)@, *chrome),
        final(framebuffer)@.width == old(framebuffer)@.width,
        final(framebuffer)@.height == old(framebuffer)@.height,
{
    let width: u32 = framebuffer.width();
    let height: u32 = framebuffer.height();
    let twenty_second: u32 = height / 22;
    let bar: u32 = if twenty_second < 28 {
        28
    } else {
        twenty_second
    };
    clear_rows(framebuffer, 0, height - bar);
    let ghost clean = framebuffer@;

    let big: u32 = clamp(width / 240, 3, 10);
    let middle: u32 = if big / 2 < 2 {
        2
    } else {
        big / 2
    };
    let small: u32 = if middle / 2 < 1 {
        1
    } else {
        middle / 2
    };
    let title_y: u32 = height / 7;
    proof {
        lemma_scaled(chrome.cell_height, big, MOST);
        lemma_scaled(chrome.cell_height, middle, MOST);
        law::lemma_centred(clean, title_y, chrome.title, TEXT, big);
    }
    framebuffer.draw_text_centered(title_y, &chrome.title, Color(TEXT), big);
    let ghost one = framebuffer@;
    let subtitle_y: u32 = title_y + Framebuffer::line_height(chrome.cell_height, big) + 12;
    proof {
        law::lemma_centred(one, subtitle_y, chrome.subtitle, ACCENT, middle);
    }
    framebuffer.draw_text_centered(subtitle_y, &chrome.subtitle, Color(ACCENT), middle);
    let ghost two = framebuffer@;
    let tagline_y: u32 = subtitle_y + Framebuffer::line_height(chrome.cell_height, middle) + 8;
    proof {
        law::lemma_centred(two, tagline_y, chrome.tagline, MUTED, small);
    }
    framebuffer.draw_text_centered(tagline_y, &chrome.tagline, Color(MUTED), small);
    assert(framebuffer@ == with_title(clean, *chrome));

    let ghost titled = framebuffer@;
    let bar_y: u32 = height - bar;
    framebuffer.fill_rect(0, bar_y, width, bar, Color(BAR));
    framebuffer.fill_rect(0, bar_y, width, 2, Color(ACCENT));
    let ghost barred = framebuffer@;
    let scale: u32 = clamp(bar / 22, 1, 2);
    proof {
        lemma_scaled(chrome.cell_height, scale, MOST);
        lemma_scaled(reach(chrome.name.glyphs@) as u32, scale, MOST);
        lemma_scaled(reach(chrome.gap.glyphs@) as u32, scale, MOST);
        lemma_scaled(reach(chrome.status.glyphs@) as u32, scale, MOST);
    }
    let label_y: u32 = bar_y + (bar - Framebuffer::line_height(chrome.cell_height, scale)) / 2;
    let cursor: u32 = framebuffer.draw_text(24, label_y, &chrome.name, Color(ACCENT), scale);
    let status_x: u32 = cursor + Framebuffer::text_width(&chrome.gap, scale);
    let _ = framebuffer.draw_text(status_x, label_y, &chrome.status, Color(MUTED), scale);
    assert(framebuffer@ == with_bar(titled, *chrome));
    proof {
        law::lemma_bar_shape(titled, *chrome);
    }
}

fn clamp(value: u32, low: u32, high: u32) -> (near: u32)
    ensures
        near == clamped(value, low, high),
{
    if value < low {
        low
    } else if value > high {
        high
    } else {
        value
    }
}

/// A number of units, magnified no more than ten times.
pub proof fn lemma_scaled(units: u32, scale: u32, most: u32)
    requires
        units <= most,
        scale <= 10,
    ensures
        0 <= units * scale <= most * 10,
{
    assert(0 <= units * scale <= most * 10) by (nonlinear_arith)
        requires
            0 <= units <= most,
            0 <= scale <= 10,
    ;
}

/// Adopt the framebuffer and paint the first screen, if there is a framebuffer
/// that can be used.
pub fn init(state: &mut State, info: &FramebufferInfo, chrome: &Chrome) -> (available: bool)
    requires
        old(state).wf(),
        chrome.wf(),
        info.valid && info.format != PixelFormat::Unknown ==> roomy(info.width, info.height)
            && label_fits(info.height, chrome.cell_height),
    ensures
        final(state).wf(),
        available == (info.valid && info.format != PixelFormat::Unknown),
        final(state)@ == if available {
            StateModel {
                surface: Some(with_chrome(blank(*info), *chrome)),
                geometry: Some(*info),
                ..old(state)@
            }
        } else {
            old(state)@
        },
{
    match Framebuffer::new(info) {
        None => false,
        Some(mut framebuffer) => {
            paint_chrome(&mut framebuffer, chrome);
            state.framebuffer = Some(framebuffer);
            state.geometry = Some(*info);
            true
        },
    }
}

/// Whether a display is available.
pub fn is_available(state: &State) -> (available: bool)
    ensures
        available == (state@.surface is Some),
{
    state.framebuffer.is_some()
}

/// Take what has been drawn since this was last called, for whoever copies it
/// out.
pub fn take_damage(state: &mut State) -> (damage: Option<crate::framebuffer::Bounds>)
    requires
        old(state).wf(),
    ensures
        final(state).wf(),
        match old(state)@.surface {
            None => damage is None && final(state)@ == old(state)@,
            Some(surface) => damage == surface.damage && final(state)@ == (StateModel {
                surface: Some(Model { damage: None, ..surface }),
                ..old(state)@
            }),
        },
{
    let mut slot: Option<Framebuffer> = None;
    std::mem::swap(&mut slot, &mut state.framebuffer);
    match slot {
        None => None,
        Some(mut framebuffer) => {
            let damage = framebuffer.take_damage();
            state.framebuffer = Some(framebuffer);
            damage
        },
    }
}

/// The surface, for whoever copies it out.
pub fn surface(state: &State) -> (framebuffer: Option<&Framebuffer>)
    requires
        state.wf(),
    ensures
        match framebuffer {
            Some(framebuffer) => state@.surface == Some(framebuffer@) && framebuffer.wf(),
            None => state@.surface is None,
        },
{
    match &state.framebuffer {
        Some(framebuffer) => Some(framebuffer),
        None => None,
    }
}

/// Where the status panel is and how it is set, in pixels.
#[derive(Debug, Clone, Copy, PartialEq, Eq, Structural)]
pub struct PanelLayout {
    pub x: u32,
    pub y: u32,
    pub width: u32,
    pub height: u32,
    pub padding: u32,
    pub value_offset: u32,
    pub text_scale: u32,
    pub line_spacing: u32,
}

/// One row of the status panel, as glyphs.
#[derive(Debug)]
pub struct StatusLine {
    pub label: Text,
    pub value: Text,
}

/// What has to be known of the rows to lay the panel out.
pub struct Contents {
    pub rows: nat,
    pub labels: nat,
    pub values: nat,
    pub gap: nat,
    pub cell_height: u32,
}

/// The widest label.
pub open spec fn widest_label(rows: Seq<StatusLine>) -> nat
    decreases rows.len(),
{
    if rows.len() == 0 {
        0
    } else {
        let before = widest_label(rows.drop_last());
        let here = reach(rows.last().label.glyphs@);
        if before < here {
            here
        } else {
            before
        }
    }
}

/// The widest value.
pub open spec fn widest_value(rows: Seq<StatusLine>) -> nat
    decreases rows.len(),
{
    if rows.len() == 0 {
        0
    } else {
        let before = widest_value(rows.drop_last());
        let here = reach(rows.last().value.glyphs@);
        if before < here {
            here
        } else {
            before
        }
    }
}

/// What has to be known of these rows.
pub open spec fn contents_of(rows: Seq<StatusLine>, gap: Text) -> Contents {
    Contents {
        rows: rows.len(),
        labels: widest_label(rows),
        values: widest_value(rows),
        gap: reach(gap.glyphs@),
        cell_height: gap.cell_height,
    }
}

/// Every row is set in the one face, and there are no more than there may be.
pub open spec fn rows_wf(rows: Seq<StatusLine>, gap: Text) -> bool {
    rows.len() <= MOST_ROWS && lines_wf(rows, gap)
}

/// Every row is set in the one face.
pub open spec fn lines_wf(rows: Seq<StatusLine>, gap: Text) -> bool {
    &&& gap.wf()
    &&& forall|i: int|
        0 <= i < rows.len() ==> (#[trigger] rows[i]).label.wf() && rows[i].value.wf()
            && rows[i].label.cell_height == gap.cell_height && rows[i].value.cell_height
            == gap.cell_height
}

/// Where the panel may start: below the title block.
pub open spec fn band_top(height: u32) -> int {
    height * 2 / 5
}

/// How high the panel may be: down to the bar.
pub open spec fn band_height(height: u32) -> int {
    let bottom = height - bar_height(height) - 16;
    if bottom < band_top(height) {
        0
    } else {
        bottom - band_top(height)
    }
}

/// How far one row is from the next.
pub open spec fn line_spacing(contents: Contents, scale: int) -> int {
    contents.cell_height * scale + scale * 3
}

/// How wide the panel is.
pub open spec fn panel_width(contents: Contents, scale: int) -> int {
    (contents.labels + contents.gap + contents.values) * scale + 12 * scale * 2
}

/// How high the panel is.
pub open spec fn panel_height(contents: Contents, scale: int) -> int {
    contents.rows * line_spacing(contents, scale) + 12 * scale * 2
}

/// Whether the panel fits the band in both directions.
pub open spec fn panel_fits(width: u32, height: u32, contents: Contents, scale: int) -> bool {
    panel_width(contents, scale) + width / 12 <= width && panel_height(contents, scale)
        <= band_height(height)
}

/// The largest magnification, from one down, at which the panel fits; one if
/// there is none.
pub open spec fn chosen_scale(width: u32, height: u32, contents: Contents, from: int) -> int
    decreases from,
{
    if from <= 1 || panel_fits(width, height, contents, from) {
        from
    } else {
        chosen_scale(width, height, contents, from - 1)
    }
}

/// The largest magnification that is tried.
pub open spec fn largest_scale(width: u32) -> int {
    clamped(width / 480, 1, 4) as int
}

/// Whether a panel can be laid out on a surface: there is room for the bar and
/// what is under it, and the panel's height is a number at the largest
/// magnification tried.
pub open spec fn can_be_laid_out(width: u32, height: u32, contents: Contents) -> bool {
    44 <= height <= 0x7FFF_FFFF && panel_height(contents, largest_scale(width)) <= u32::MAX
}

/// The layout of the panel.
pub open spec fn laid_out(width: u32, height: u32, contents: Contents) -> PanelLayout {
    let scale = chosen_scale(width, height, contents, largest_scale(width));
    let wide = if panel_width(contents, scale) < width {
        panel_width(contents, scale)
    } else {
        width as int
    };
    let high = panel_height(contents, scale);
    let spare = if band_height(height) < high {
        0
    } else {
        band_height(height) - high
    };
    PanelLayout {
        x: ((width - wide) / 2) as u32,
        y: (band_top(height) + spare / 2) as u32,
        width: wide as u32,
        height: high as u32,
        padding: (12 * scale) as u32,
        value_offset: ((contents.labels + contents.gap) * scale) as u32,
        text_scale: scale as u32,
        line_spacing: line_spacing(contents, scale) as u32,
    }
}

/// The tallest a panel can be.
pub open spec fn tallest() -> u32 {
    0x1400_0000
}

/// No panel is higher or wider than a number of it holds.
pub proof fn lemma_panel_bounds(contents: Contents, scale: int)
    requires
        1 <= scale <= 4,
        contents.rows <= MOST_ROWS,
        contents.labels <= MOST,
        contents.values <= MOST,
        contents.gap <= MOST,
        contents.cell_height <= MOST,
    ensures
        0 <= contents.cell_height * scale <= 4 * MOST,
        3 <= line_spacing(contents, scale) <= 4 * MOST + 12,
        0 <= (contents.labels + contents.gap) * scale <= 8 * MOST,
        24 <= panel_width(contents, scale) <= 12 * MOST + 96,
        0 <= contents.rows * line_spacing(contents, scale) <= 64 * (4 * MOST + 12),
        24 <= panel_height(contents, scale) <= tallest(),
{
    assert(0 <= contents.cell_height * scale <= 4 * MOST) by (nonlinear_arith)
        requires
            0 <= contents.cell_height <= MOST,
            1 <= scale <= 4,
    ;
    assert(0 <= (contents.labels + contents.gap) * scale <= 8 * MOST) by (nonlinear_arith)
        requires
            0 <= contents.labels + contents.gap <= 2 * MOST,
            1 <= scale <= 4,
    ;
    assert(0 <= (contents.labels + contents.gap + contents.values) * scale <= 12 * MOST)
        by (nonlinear_arith)
        requires
            0 <= contents.labels + contents.gap + contents.values <= 3 * MOST,
            1 <= scale <= 4,
    ;
    let spacing = line_spacing(contents, scale);
    assert(0 <= contents.rows * spacing <= 64 * (4 * MOST + 12)) by (nonlinear_arith)
        requires
            0 <= contents.rows <= 64,
            0 <= spacing <= 4 * MOST + 12,
    ;
}

/// A panel whose height is a number at one magnification is one at every smaller
/// one.
pub proof fn lemma_panel_scales(contents: Contents, scale: int, largest: int)
    requires
        1 <= scale <= largest <= 4,
        contents.labels <= MOST,
        contents.values <= MOST,
        contents.gap <= MOST,
        contents.cell_height <= MOST,
        panel_height(contents, largest) <= u32::MAX,
    ensures
        contents.rows <= u32::MAX,
        0 <= contents.cell_height * scale <= 4 * MOST,
        3 <= line_spacing(contents, scale) <= 4 * MOST + 12,
        0 <= (contents.labels + contents.gap) * scale <= 8 * MOST,
        24 <= panel_width(contents, scale) <= 12 * MOST + 96,
        0 <= contents.rows * line_spacing(contents, scale) <= panel_height(contents, scale),
        24 <= panel_height(contents, scale) <= u32::MAX,
{
    assert(0 <= contents.cell_height * scale <= 4 * MOST) by (nonlinear_arith)
        requires
            0 <= contents.cell_height <= MOST,
            1 <= scale <= 4,
    ;
    assert(0 <= (contents.labels + contents.gap) * scale <= 8 * MOST) by (nonlinear_arith)
        requires
            0 <= contents.labels + contents.gap <= 2 * MOST,
            1 <= scale <= 4,
    ;
    assert(0 <= (contents.labels + contents.gap + contents.values) * scale <= 12 * MOST)
        by (nonlinear_arith)
        requires
            0 <= contents.labels + contents.gap + contents.values <= 3 * MOST,
            1 <= scale <= 4,
    ;
    let rows = contents.rows as int;
    let spacing = line_spacing(contents, scale);
    let widest = line_spacing(contents, largest);
    assert(contents.cell_height * scale <= contents.cell_height * largest) by (nonlinear_arith)
        requires
            0 <= contents.cell_height,
            scale <= largest,
    ;
    assert(rows <= rows * spacing <= rows * widest) by (nonlinear_arith)
        requires
            0 <= rows,
            1 <= spacing <= widest,
    ;
}

/// The scale that is chosen is between one and the largest tried.
pub proof fn lemma_chosen(width: u32, height: u32, contents: Contents, from: int)
    requires
        1 <= from,
    ensures
        1 <= chosen_scale(width, height, contents, from) <= from,
    decreases from,
{
    if from > 1 && !panel_fits(width, height, contents, from) {
        lemma_chosen(width, height, contents, from - 1);
    }
}

/// Lay the panel out round the text it has to hold, measured in pixels: the same
/// number of characters is a different number of pixels in different languages.
pub fn panel_layout(
    surface_width: u32,
    surface_height: u32,
    rows: &[StatusLine],
    gap: &Text,
) -> (layout: PanelLayout)
    requires
        lines_wf(rows@, *gap),
        can_be_laid_out(surface_width, surface_height, contents_of(rows@, *gap)),
    ensures
        layout == laid_out(surface_width, surface_height, contents_of(rows@, *gap)),
{
    let ghost contents = contents_of(rows@, *gap);
    let mut label_units: u32 = 0;
    let mut value_units: u32 = 0;
    let mut at: usize = 0;
    assert(rows@.take(0) =~= Seq::empty());
    while at < rows.len()
        invariant
            at <= rows@.len(),
            lines_wf(rows@, *gap),
            label_units <= MOST,
            value_units <= MOST,
            label_units == widest_label(rows@.take(at as int)),
            value_units == widest_value(rows@.take(at as int)),
        decreases rows@.len() - at,
    {
        assert(rows@.take(at + 1).drop_last() =~= rows@.take(at as int));
        let label: u32 = measure(&rows[at].label);
        if label_units < label {
            label_units = label;
        }
        let value: u32 = measure(&rows[at].value);
        if value_units < value {
            value_units = value;
        }
        at += 1;
    }
    assert(rows@.take(at as int) =~= rows@);
    let gap_units: u32 = measure(gap);
    let content_units: u32 = label_units + gap_units + value_units;

    let twenty_second: u32 = surface_height / 22;
    let bar: u32 = if twenty_second < 28 {
        28
    } else {
        twenty_second
    };
    let top: u32 = surface_height * 2 / 5;
    let bottom: u32 = surface_height - bar - 16;
    let band: u32 = bottom.saturating_sub(top);
    let margin: u32 = surface_width / 12;
    let cell: u32 = gap.cell_height;

    let mut scale: u32 = clamp(surface_width / 480, 1, 4);
    let ghost largest = scale as int;
    proof {
        lemma_panel_scales(contents, scale as int, largest);
    }
    let many: u32 = rows.len() as u32;
    let mut padding: u32 = 12 * scale;
    let mut spacing: u32 = cell * scale + scale * 3;
    let mut width: u32 = content_units * scale + padding * 2;
    let mut height: u32 = many * spacing + padding * 2;
    while !(width as u64 + margin as u64 <= surface_width as u64 && height <= band) && scale > 1
        invariant
            contents == contents_of(rows@, *gap),
            contents.rows == many,
            panel_height(contents, largest) <= u32::MAX,
            contents.labels == label_units <= MOST,
            contents.values == value_units <= MOST,
            contents.gap == gap_units <= MOST,
            contents.cell_height == cell <= MOST,
            content_units == label_units + gap_units + value_units,
            margin == surface_width / 12,
            band == band_height(surface_height),
            1 <= scale <= largest <= 4,
            chosen_scale(surface_width, surface_height, contents, largest) == chosen_scale(
                surface_width,
                surface_height,
                contents,
                scale as int,
            ),
            padding == 12 * scale,
            spacing == line_spacing(contents, scale as int),
            width == panel_width(contents, scale as int),
            height == panel_height(contents, scale as int),
        decreases scale,
    {
        assert(!panel_fits(surface_width, surface_height, contents, scale as int));
        scale = scale - 1;
        proof {
            lemma_panel_scales(contents, scale as int, largest);
        }
        padding = 12 * scale;
        spacing = cell * scale + scale * 3;
        width = content_units * scale + padding * 2;
        height = many * spacing + padding * 2;
    }
    proof {
        lemma_panel_scales(contents, scale as int, largest);
        assert(chosen_scale(surface_width, surface_height, contents, largest) == scale);
    }
    let wide: u32 = if width < surface_width {
        width
    } else {
        surface_width
    };
    PanelLayout {
        x: (surface_width - wide) / 2,
        y: top + band.saturating_sub(height) / 2,
        width: wide,
        height,
        padding,
        value_offset: (label_units + gap_units) * scale,
        text_scale: scale,
        line_spacing: spacing,
    }
}

/// A surface with the panel's box on it.
pub open spec fn with_box(surface: Model, layout: PanelLayout) -> Model {
    surface.filled(layout.x, layout.y, layout.width, layout.height, Color(PANEL)).filled(
        layout.x,
        layout.y,
        layout.width,
        2,
        Color(ACCENT),
    ).filled(
        layout.x,
        (layout.y + layout.height - 2) as u32,
        layout.width,
        2,
        Color(ACCENT),
    ).filled(layout.x, layout.y, 2, layout.height, Color(ACCENT)).filled(
        (layout.x + layout.width - 2) as u32,
        layout.y,
        2,
        layout.height,
        Color(ACCENT),
    )
}

/// A surface with the first rows of the panel on it.
pub open spec fn with_lines(
    surface: Model,
    layout: PanelLayout,
    rows: Seq<StatusLine>,
    many: nat,
) -> Model
    decreases many,
{
    if many == 0 {
        surface
    } else {
        let index = many - 1;
        let y = (layout.y + layout.padding + index * layout.line_spacing) as u32;
        let label_x = (layout.x + layout.padding) as u32;
        let value_x = (label_x + layout.value_offset) as u32;
        with_lines(surface, layout, rows, index as nat).with_text(
            label_x,
            y,
            rows[index].label,
            Color(MUTED),
            layout.text_scale,
        ).with_text(value_x, y, rows[index].value, Color(TEXT), layout.text_scale)
    }
}

/// A surface with the panel redrawn, `tall` rows of background under it.
pub open spec fn with_panel(
    surface: Model,
    layout: PanelLayout,
    rows: Seq<StatusLine>,
    tall: u32,
) -> Model {
    let clean = cleared(
        surface,
        unclaimed(surface.width, surface.height),
        layout.y,
        (layout.y + tall) as u32,
    );
    with_lines(with_box(clean, layout), layout, rows, rows.len())
}

/// Redraw the status panel, if there is a display.
///
/// As much is cleared as the tallest panel so far took, so that nothing is left
/// of a language that needed more room.
pub fn refresh_status(state: &mut State, rows: &[StatusLine], gap: &Text)
    requires
        old(state).wf(),
        rows_wf(rows@, *gap),
    ensures
        final(state).wf(),
        match old(state)@.surface {
            None => final(state)@ == old(state)@,
            Some(surface) => {
                let layout = laid_out(surface.width, surface.height, contents_of(rows@, *gap));
                let tall = greatest(old(state)@.painted_height, layout.height);
                final(state)@ == StateModel {
                    surface: Some(with_panel(surface, layout, rows@, tall)),
                    painted_height: tall,
                    ..old(state)@
                }
            },
        },
{
    let mut slot: Option<Framebuffer> = None;
    std::mem::swap(&mut slot, &mut state.framebuffer);
    let mut framebuffer = match slot {
        None => return,
        Some(framebuffer) => framebuffer,
    };
    let ghost surface = framebuffer@;
    proof {
        law::lemma_widest(rows@, *gap);
        lemma_panel_bounds(contents_of(rows@, *gap), largest_scale(surface.width));
    }
    let layout: PanelLayout = panel_layout(framebuffer.width(), framebuffer.height(), rows, gap);
    proof {
        law::lemma_layout(surface.width, surface.height, rows@, *gap);
    }
    if state.painted_height < layout.height {
        state.painted_height = layout.height;
    }
    let tall: u32 = state.painted_height;
    clear_rows(&mut framebuffer, layout.y, layout.y + tall);
    framebuffer.fill_rect(layout.x, layout.y, layout.width, layout.height, Color(PANEL));
    framebuffer.fill_rect(layout.x, layout.y, layout.width, 2, Color(ACCENT));
    framebuffer.fill_rect(
        layout.x,
        layout.y + layout.height - 2,
        layout.width,
        2,
        Color(ACCENT),
    );
    framebuffer.fill_rect(layout.x, layout.y, 2, layout.height, Color(ACCENT));
    framebuffer.fill_rect(layout.x + layout.width - 2, layout.y, 2, layout.height, Color(ACCENT));
    let ghost boxed = framebuffer@;
    let label_x: u32 = layout.x + layout.padding;
    let value_x: u32 = label_x + layout.value_offset;
    let mut index: usize = 0;
    while index < rows.len()
        invariant
            framebuffer.wf(),
            rows_wf(rows@, *gap),
            index <= rows@.len(),
            law::placed(surface.width, surface.height, layout, gap.cell_height, rows@.len()),
            label_x == layout.x + layout.padding,
            value_x == label_x + layout.value_offset,
            framebuffer@ == with_lines(boxed, layout, rows@, index as nat),
        decreases rows@.len() - index,
    {
        proof {
            law::lemma_line(
                surface.width,
                surface.height,
                layout,
                gap.cell_height,
                rows@.len(),
                index as int,
            );
            let row = rows@[index as int];
            assert(row.label.wf() && row.value.wf());
            lemma_scaled(reach(row.label.glyphs@) as u32, layout.text_scale, MOST);
            lemma_scaled(reach(row.value.glyphs@) as u32, layout.text_scale, MOST);
        }
        let y: u32 = layout.y + layout.padding + index as u32 * layout.line_spacing;
        let _ = framebuffer.draw_text(
            label_x,
            y,
            &rows[index].label,
            Color(MUTED),
            layout.text_scale,
        );
        let _ = framebuffer.draw_text(
            value_x,
            y,
            &rows[index].value,
            Color(TEXT),
            layout.text_scale,
        );
        index += 1;
    }
    proof {
        law::lemma_panel_shape(surface, rows@, *gap, tall);
    }
    state.framebuffer = Some(framebuffer);
}

/// Note the language that is about to be painted, and say whether it is another:
/// then everything is repainted, because the words round the panel are
/// translated too.
pub fn locale_changed(state: &mut State, locale: usize) -> (changed: bool)
    requires
        old(state).wf(),
    ensures
        final(state).wf(),
        changed == (old(state)@.painted_locale != locale),
        final(state)@ == (StateModel { painted_locale: locale, ..old(state)@ }),
{
    let changed: bool = state.painted_locale != locale;
    state.painted_locale = locale;
    changed
}

/// Repaint everything but the panel, if there is a display.
pub fn repaint(state: &mut State, chrome: &Chrome)
    requires
        old(state).wf(),
        chrome.wf(),
        old(state)@.surface matches Some(surface) ==> label_fits(
            surface.height,
            chrome.cell_height,
        ),
    ensures
        final(state).wf(),
        final(state)@ == match old(state)@.surface {
            None => old(state)@,
            Some(surface) => StateModel {
                surface: Some(with_chrome(surface, *chrome)),
                ..old(state)@
            },
        },
{
    let mut slot: Option<Framebuffer> = None;
    std::mem::swap(&mut slot, &mut state.framebuffer);
    if let Some(mut framebuffer) = slot {
        paint_chrome(&mut framebuffer, chrome);
        state.framebuffer = Some(framebuffer);
    }
}

/// Whether the thread that keeps the panel current is to be started: where there
/// is a display.
pub fn start_thread(state: &State) -> (start: bool)
    ensures
        start == (state@.surface is Some),
{
    is_available(state)
}

} // verus!
