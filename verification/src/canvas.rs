//! The canvas of the raster view, and the one font scale at which a text of
//! a given extent fits it.

use crate::measure::Extent;
use vstd::prelude::*;

verus! {

/// A character is taken to be 19 / 10 times as high as it is wide. This is
/// the numerator of that ratio.
pub const CHAR_ASPECT_NUM: u32 = 19;

/// The denominator of the ratio of a character's height to its width.
pub const CHAR_ASPECT_DEN: u32 = 10;

/// Pixels left free at the right beyond the side padding.
pub const SIDE_TRIM: u32 = 20;

/// The canvas and its padding, in pixels.
#[derive(Clone, Copy, Debug, PartialEq, Eq, Structural)]
pub struct Canvas {
    pub width: u32,
    pub height: u32,
    /// Free space above the first line, beyond the padding.
    pub y_start: u32,
    /// Padding at the top and at the bottom.
    pub y_pad: u32,
    /// Padding at the left and at the right.
    pub x_pad: u32,
}

impl Canvas {
    /// The height left for text.
    pub open spec fn usable_height(self) -> int {
        self.height - 2 * self.y_pad - self.y_start
    }

    /// The width left for text.
    pub open spec fn usable_width(self) -> int {
        self.width - 2 * self.x_pad - SIDE_TRIM
    }

    /// The canvas has room for text, and its first line starts at a
    /// position that a cursor can hold.
    pub open spec fn has_room(self) -> bool {
        &&& self.usable_height() > 0
        &&& self.usable_width() > 0
        &&& self.x_pad <= i32::MAX
        &&& self.y_pad + self.y_start <= i32::MAX
    }

    /// A laptop screen of 1470 by 956 pixels.
    pub fn screen() -> (canvas: Canvas)
        ensures
            canvas == (Canvas { width: 1470, height: 956, y_start: 35, y_pad: 20, x_pad: 35 }),
            canvas.has_room(),
    {
        Canvas { width: 1470, height: 956, y_start: 35, y_pad: 20, x_pad: 35 }
    }

    /// Whether the canvas has room for text.
    pub fn check_room(&self) -> (ok: bool)
        ensures
            ok == self.has_room(),
    {
        let height: u64 = self.height as u64;
        let width: u64 = self.width as u64;
        let taken_y: u64 = 2 * (self.y_pad as u64) + self.y_start as u64;
        let taken_x: u64 = 2 * (self.x_pad as u64) + SIDE_TRIM as u64;
        height > taken_y && width > taken_x && self.x_pad <= 0x7fff_ffff && self.y_pad as u64
            + self.y_start as u64 <= 0x7fff_ffff
    }
}

/// A font scale as an exact fraction `num / den`.
#[derive(Clone, Copy, Debug, PartialEq, Eq, Structural)]
pub struct FontScale {
    pub num: u128,
    pub den: u128,
}

/// The scale at which `lines` lines fill the usable height.
pub open spec fn scale_by_height(lines: nat, canvas: Canvas) -> (int, int) {
    (canvas.usable_height(), lines as int)
}

/// The scale at which a line of `longest` characters fills the usable
/// width. A character is taken to be `10 / 19` as wide as it is high.
pub open spec fn scale_by_width(longest: nat, canvas: Canvas) -> (int, int) {
    (canvas.usable_width() * CHAR_ASPECT_NUM, longest * CHAR_ASPECT_DEN)
}

/// `a <= b` for fractions with a positive numerator, reading a zero
/// denominator as infinity.
pub open spec fn fraction_le(a: (int, int), b: (int, int)) -> bool {
    a.0 * b.1 <= b.0 * a.1
}

/// The largest scale at which the text fits both ways: the smaller of the
/// scale by height and the scale by width. There is none for a text without
/// lines or a canvas without room.
pub open spec fn fitting_scale(lines: nat, longest: nat, canvas: Canvas) -> Option<(int, int)> {
    if lines == 0 || !canvas.has_room() {
        None
    } else if fraction_le(scale_by_height(lines, canvas), scale_by_width(longest, canvas)) {
        Some(scale_by_height(lines, canvas))
    } else {
        Some(scale_by_width(longest, canvas))
    }
}

/// The fitting scale is the smaller of the scale by height and the scale by
/// width: it is one of the two, and it exceeds neither.
pub proof fn lemma_fitting_scale_is_least(lines: nat, longest: nat, canvas: Canvas)
    requires
        lines > 0,
        canvas.has_room(),
    ensures
        fitting_scale(lines, longest, canvas) is Some,
        ({
            let scale = fitting_scale(lines, longest, canvas).unwrap();
            let by_height = scale_by_height(lines, canvas);
            let by_width = scale_by_width(longest, canvas);
            &&& scale == by_height || scale == by_width
            &&& fraction_le(scale, by_height)
            &&& fraction_le(scale, by_width)
            &&& scale.0 > 0
            &&& scale.1 > 0
        }),
{
    let by_height = scale_by_height(lines, canvas);
    let by_width = scale_by_width(longest, canvas);
    assert(by_width.0 > 0) by (nonlinear_arith)
        requires
            by_width.0 == canvas.usable_width() * CHAR_ASPECT_NUM,
            canvas.usable_width() > 0,
            CHAR_ASPECT_NUM == 19,
    ;
    assert(by_width.1 >= 0) by (nonlinear_arith)
        requires
            by_width.1 == longest * CHAR_ASPECT_DEN,
            CHAR_ASPECT_DEN == 10,
    ;
    if !fraction_le(by_height, by_width) {
        assert(by_width.1 > 0) by (nonlinear_arith)
            requires
                by_height.0 * by_width.1 > by_width.0 * by_height.1,
                by_height.0 > 0,
                by_height.1 > 0,
                by_width.0 > 0,
                by_width.1 >= 0,
        ;
        assert(fraction_le(by_width, by_height)) by (nonlinear_arith)
            requires
                by_height.0 * by_width.1 > by_width.0 * by_height.1,
        ;
    }
}

/// Chooses the font scale for a text of the given extent.
pub fn fit_scale(extent: Extent, canvas: &Canvas) -> (scale: Option<FontScale>)
    ensures
        match scale {
            Some(s) => fitting_scale(extent.lines as nat, extent.longest as nat, *canvas) == Some(
                (s.num as int, s.den as int),
            ) && s.den > 0,
            None => fitting_scale(extent.lines as nat, extent.longest as nat, *canvas) is None,
        },
{
    if extent.lines == 0 || !canvas.check_room() {
        return None;
    }
    let usable_height: u128 = (canvas.height - 2 * canvas.y_pad - canvas.y_start) as u128;
    let usable_width: u128 = (canvas.width - 2 * canvas.x_pad - SIDE_TRIM) as u128;
    let lines: u128 = extent.lines as u128;
    let longest: u128 = extent.longest as u128;
    assert(CHAR_ASPECT_NUM == 19 && CHAR_ASPECT_DEN == 10);
    let by_width_num: u128 = usable_width * 19;
    let by_width_den: u128 = longest * 10;
    assert(usable_height * by_width_den <= 0xffff_ffff * (0xffff_ffff_ffff_ffff * 10)) by (
        nonlinear_arith)
        requires
            usable_height <= 0xffff_ffff,
            by_width_den <= 0xffff_ffff_ffff_ffff * 10,
    ;
    assert(by_width_num * lines <= (0xffff_ffff * 19) * 0xffff_ffff_ffff_ffff) by (nonlinear_arith)
        requires
            by_width_num <= 0xffff_ffff * 19,
            lines <= 0xffff_ffff_ffff_ffff,
    ;
    if usable_height * by_width_den <= by_width_num * lines {
        Some(FontScale { num: usable_height, den: lines })
    } else {
        assert(by_width_den > 0) by (nonlinear_arith)
            requires
                usable_height * by_width_den > by_width_num * lines,
                by_width_num >= 0,
                lines >= 0,
                usable_height >= 0,
                by_width_den >= 0,
        ;
        Some(FontScale { num: by_width_num, den: by_width_den })
    }
}

} // verus!
