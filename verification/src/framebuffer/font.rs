//! Glyphs, as far as drawing them needs.
use vstd::prelude::*;

verus! {

/// The most pixels a line may be long at its natural size, and a glyph high.
///
/// With it every position that is computed from a line fits in a number.
pub const MOST: u32 = 0x0010_0000;

/// How much ink a pixel needs to be drawn.
pub const THRESHOLD: u8 = 128;

/// One character of a face.
#[derive(Debug)]
pub struct Glyph {
    /// How far the next glyph is from this one.
    pub advance: u32,
    /// How much ink there is in each pixel, by row and then by column.
    pub rows: Vec<Vec<u8>>,
}

impl Glyph {
    /// Whether a pixel of the glyph is drawn.
    pub open spec fn lit(&self, column: int, row: int) -> bool {
        self.rows@[row]@[column] >= THRESHOLD
    }

    /// Every row has a pixel for every column.
    pub open spec fn wf(&self, cell_height: u32) -> bool {
        &&& self.rows@.len() == cell_height
        &&& forall|row: int|
            0 <= row < cell_height ==> (#[trigger] self.rows@[row])@.len() == self.advance
    }
}

/// A line of text set in a face.
#[derive(Debug)]
pub struct Text {
    /// How high every glyph of the face is.
    pub cell_height: u32,
    pub glyphs: Vec<Glyph>,
}

/// How far a run of glyphs reaches at its natural size.
pub open spec fn reach(glyphs: Seq<Glyph>) -> nat
    decreases glyphs.len(),
{
    if glyphs.len() == 0 {
        0
    } else {
        reach(glyphs.drop_last()) + glyphs.last().advance as nat
    }
}

impl Text {
    /// Every glyph has its pixels, and the line is no longer than it may be.
    pub open spec fn wf(&self) -> bool {
        &&& self.cell_height <= MOST
        &&& reach(self.glyphs@) <= MOST
        &&& forall|i: int|
            0 <= i < self.glyphs@.len() ==> (#[trigger] self.glyphs@[i]).wf(self.cell_height)
    }
}

/// A shorter run reaches no further.
pub proof fn lemma_reach_grows(glyphs: Seq<Glyph>, at: int)
    requires
        0 <= at <= glyphs.len(),
    ensures
        reach(glyphs.take(at)) <= reach(glyphs),
    decreases glyphs.len() - at,
{
    if at < glyphs.len() {
        lemma_reach_grows(glyphs, at + 1);
        assert(glyphs.take(at + 1).drop_last() =~= glyphs.take(at));
    } else {
        assert(glyphs.take(at) =~= glyphs);
    }
}

/// How many pixels wide a line is at its natural size.
///
/// Measured rather than counted: a full-width character is twice as wide as a
/// half-width one.
pub fn measure(text: &Text) -> (units: u32)
    requires
        text.wf(),
    ensures
        units == reach(text.glyphs@),
{
    let mut units: u32 = 0;
    let mut at: usize = 0;
    assert(text.glyphs@.take(0) =~= Seq::empty());
    while at < text.glyphs.len()
        invariant
            text.wf(),
            at <= text.glyphs@.len(),
            units == reach(text.glyphs@.take(at as int)),
        decreases text.glyphs@.len() - at,
    {
        proof {
            let next = text.glyphs@.take(at + 1);
            assert(next.drop_last() =~= text.glyphs@.take(at as int));
            lemma_reach_grows(text.glyphs@, at + 1);
        }
        units = units + text.glyphs[at].advance;
        at += 1;
    }
    assert(text.glyphs@.take(at as int) =~= text.glyphs@);
    units
}

} // verus!
