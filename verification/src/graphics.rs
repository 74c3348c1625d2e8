//! The framebuffer: a fixed-size monochrome bit grid with XOR-toggle write
//! semantics and a dirty flag that tells the renderer a redraw is due.

use vstd::prelude::*;
use fixedbitset::FixedBitSet;
use crate::bitset::{bitset_bits, bitset_clear, bitset_contains, bitset_new, bitset_toggle};

verus! {

/// The mathematical state of a framebuffer: the pixel grid in row-major
/// order, its dimensions, and the dirty flag.
pub ghost struct GraphicsView {
    pub width: u32,
    pub height: u32,
    pub px: Seq<bool>,
    pub dirty: bool,
}

/// A width x height monochrome grid, row-major, each cell boolean.
pub struct Graphics {
    width: u32,
    height: u32,
    display: FixedBitSet,
    changed: bool,
}

impl View for Graphics {
    type V = GraphicsView;

    closed spec fn view(&self) -> GraphicsView {
        GraphicsView {
            width: self.width,
            height: self.height,
            px: bitset_bits(self.display),
            dirty: self.changed,
        }
    }
}

impl Graphics {
    pub open spec fn wf(&self) -> bool {
        &&& self@.px.len() == self@.width * self@.height
        &&& self@.width * self@.height <= u32::MAX
    }

    pub fn new(width: u32, height: u32) -> (r: Graphics)
        requires
            width * height <= u32::MAX,
        ensures
            r.wf(),
            r@.width == width,
            r@.height == height,
            forall|i: int| 0 <= i < r@.px.len() ==> !r@.px[i],
            r@.dirty,
    {
        let display = bitset_new((width * height) as usize);
        Graphics { width, height, display, changed: true }
    }

    /// Toggles the pixel at column `x` and row `y` (0-indexed) and returns
    /// whether the pixel was lit before the call, i.e. whether this toggle
    /// turns a lit pixel off.
    pub fn toggle(&mut self, x: u32, y: u32) -> (was_lit: bool)
        requires
            old(self).wf(),
            x < old(self)@.width,
            y < old(self)@.height,
        ensures
            final(self).wf(),
            final(self)@.width == old(self)@.width,
            final(self)@.height == old(self)@.height,
            was_lit == old(self)@.px[y * old(self)@.width + x],
            final(self)@.px == old(self)@.px.update(
                y * old(self)@.width + x,
                !old(self)@.px[y * old(self)@.width + x],
            ),
            final(self)@.dirty,
    {
        proof {
            assert((y as int) * (self.width as int) + (x as int) < (self.width as int) * (
            self.height as int)) by (nonlinear_arith)
                requires
                    x < self.width,
                    y < self.height,
            ;
        }
        let index = y * self.width + x;
        let res = bitset_contains(&self.display, index as usize);
        bitset_toggle(&mut self.display, index as usize);
        self.changed = true;
        res
    }

    pub fn get_width(&self) -> (r: u32)
        ensures
            r == self@.width,
    {
        self.width
    }

    pub fn get_height(&self) -> (r: u32)
        ensures
            r == self@.height,
    {
        self.height
    }

    /// Reads one pixel without mutating anything: repeated calls with no
    /// intervening mutation return identical results.
    pub fn get_pixel(&self, x: u32, y: u32) -> (r: bool)
        requires
            self.wf(),
            x < self@.width,
            y < self@.height,
        ensures
            r == self@.px[y * self@.width + x],
    {
        proof {
            assert((y as int) * (self.width as int) + (x as int) < (self.width as int) * (
            self.height as int)) by (nonlinear_arith)
                requires
                    x < self.width,
                    y < self.height,
            ;
        }
        let index = y * self.width + x;
        bitset_contains(&self.display, index as usize)
    }

    /// Returns and resets the dirty flag: an at-most-once "needs redraw"
    /// signal for the rendering collaborator.
    pub fn needs_rerender(&mut self) -> (r: bool)
        ensures
            final(self).wf() == old(self).wf(),
            r == old(self)@.dirty,
            !final(self)@.dirty,
            final(self)@.px == old(self)@.px,
            final(self)@.width == old(self)@.width,
            final(self)@.height == old(self)@.height,
    {
        let res = self.changed;
        self.changed = false;
        res
    }

    /// Turns every pixel off and marks the framebuffer dirty.
    pub fn clear(&mut self)
        requires
            old(self).wf(),
        ensures
            final(self).wf(),
            final(self)@.width == old(self)@.width,
            final(self)@.height == old(self)@.height,
            final(self)@.px.len() == old(self)@.px.len(),
            forall|i: int| 0 <= i < final(self)@.px.len() ==> !final(self)@.px[i],
            final(self)@.dirty,
    {
        bitset_clear(&mut self.display);
        self.changed = true;
    }
}

} // verus!
