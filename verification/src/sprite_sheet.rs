//! Geometry of a sprite sheet: a texture cut into frames of equal size,
//! numbered row by row from the top left. Which frame an animation shows at
//! a given time is a matter of fractional seconds and is decided by the
//! renderer; where a frame lies on the texture is decided here.

use vstd::prelude::*;

verus! {

/// The frame grid of a sprite sheet and the frame currently shown.
#[derive(Clone, Copy, Debug, PartialEq, Eq, Structural)]
pub struct SpriteGrid {
    columns: u8,
    frame_width: u32,
    frame_height: u32,
    current_frame: u32,
}

/// The frame of a looping animation over the frames `start_frame` to
/// `end_frame` after `steps` frame intervals.
pub open spec fn loop_frame_spec(start_frame: u32, end_frame: u32, steps: u32) -> int {
    start_frame + steps as int % (end_frame - start_frame + 1)
}

/// Computes `loop_frame_spec`: the animation starts at `start_frame`,
/// advances one frame per interval and wraps around after `end_frame`.
pub fn loop_frame(start_frame: u32, end_frame: u32, steps: u32) -> (frame: u32)
    requires
        start_frame <= end_frame,
    ensures
        frame == loop_frame_spec(start_frame, end_frame, steps),
        start_frame <= frame <= end_frame,
{
    let length: u64 = (end_frame - start_frame) as u64 + 1;
    let offset: u64 = steps as u64 % length;
    (start_frame as u64 + offset) as u32
}

impl SpriteGrid {
    /// Number of frames in a row.
    pub closed spec fn columns(self) -> u8 {
        self.columns
    }

    /// Width and height of a frame, in pixels.
    pub closed spec fn frame_size(self) -> (u32, u32) {
        (self.frame_width, self.frame_height)
    }

    /// The frame currently shown.
    pub closed spec fn frame(self) -> u32 {
        self.current_frame
    }

    /// A grid has at least one column.
    pub open spec fn wf(self) -> bool {
        self.columns() > 0
    }

    /// The grid of a texture of the given size cut into `columns` by `rows`
    /// frames, showing frame 0.
    pub fn new(texture_width: u32, texture_height: u32, columns: u8, rows: u8) -> (g: SpriteGrid)
        requires
            columns > 0,
            rows > 0,
        ensures
            g.wf(),
            g.columns() == columns,
            g.frame_size() == (texture_width / columns as u32, texture_height / rows as u32),
            g.frame() == 0,
    {
        SpriteGrid {
            columns,
            frame_width: texture_width / (columns as u32),
            frame_height: texture_height / (rows as u32),
            current_frame: 0,
        }
    }

    /// Width and height of a frame, in pixels.
    pub fn get_frame_size(&self) -> (size: (u32, u32))
        ensures
            size == self.frame_size(),
    {
        (self.frame_width, self.frame_height)
    }

    /// The frame currently shown.
    pub fn current_frame(&self) -> (frame: u32)
        ensures
            frame == self.frame(),
    {
        self.current_frame
    }

    /// Shows `frame`.
    pub fn set_frame(&mut self, frame: u32)
        ensures
            final(self).frame() == frame,
            final(self).columns() == old(self).columns(),
            final(self).frame_size() == old(self).frame_size(),
    {
        self.current_frame = frame;
    }

    /// Top left corner on the texture of the frame currently shown: its
    /// column times the frame width, its row times the frame height.
    pub fn source_origin(&self) -> (origin: (u64, u64))
        requires
            self.wf(),
        ensures
            origin.0 == (self.frame() % self.columns() as u32) * self.frame_size().0,
            origin.1 == (self.frame() / self.columns() as u32) * self.frame_size().1,
    {
        let columns = self.columns as u32;
        let column = (self.current_frame % columns) as u64;
        let row = (self.current_frame / columns) as u64;
        assert(column * self.frame_width <= 0xffff_ffff * 0xffff_ffff) by (nonlinear_arith)
            requires
                column <= 0xffff_ffff,
                self.frame_width <= 0xffff_ffff,
        ;
        assert(row * self.frame_height <= 0xffff_ffff * 0xffff_ffff) by (nonlinear_arith)
            requires
                row <= 0xffff_ffff,
                self.frame_height <= 0xffff_ffff,
        ;
        (column * (self.frame_width as u64), row * (self.frame_height as u64))
    }
}

} // verus!
