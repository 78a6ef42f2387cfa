use crate::sync_features::SyncFeatures;
use crate::util::{
    clamp_bits,
    div_bits,
    fits_i64,
    mul_bits,
    trunc_div,
    Fixed,
    FixedVec2,
    FIXED_ONE,
};
use vstd::arithmetic::div_mod::{lemma_fundamental_div_mod, lemma_mod_bound};
use vstd::prelude::*;

verus! {

/// Largest horizontal scale, in samples per pixel column: a tile of 64 columns
/// then still fits in what a renderer takes at once.
pub const MAX_SCALE_X: i64 = 524287;

/// Raw bits of the smallest horizontal scale, one sample per pixel column.
pub const MIN_SCALE_X_BITS: i64 = 0x100_0000;

/// Raw bits of the smallest vertical scale, a thousandth.
pub const MIN_SCALE_Y_BITS: i64 = 16777;

/// View transform between world coordinates (sample index, amplitude) and
/// screen coordinates (pixels).
#[derive(Debug, Clone, Copy, PartialEq, Eq, Structural)]
pub struct Camera {
    /// Scaling. For the x-axis, the number of samples per pixel column; for the
    /// y-axis, the factor from amplitude to pixels.
    pub scale: FixedVec2,
    /// World position shown at the centre of the viewport.
    pub shift: FixedVec2,
}

/// Screen position, in raw bits, of the world position `world_x`, for a
/// viewport whose half width is `half_width`.
pub open spec fn screen_x_of(camera: Camera, half_width: int, world_x: int) -> int {
    half_width + div_bits(world_x - camera.shift.x@, camera.scale.x@)
}

/// World position, in raw bits, of the screen position `screen_x`.
pub open spec fn world_x_of(camera: Camera, half_width: int, screen_x: int) -> int {
    mul_bits(camera.scale.x@, screen_x - half_width) + camera.shift.x@
}

/// Screen position, in raw bits, of the amplitude `world_y`, for a viewport
/// whose half height is `half_height`.
pub open spec fn screen_y_of(camera: Camera, half_height: int, world_y: int) -> int {
    half_height + mul_bits(world_y + camera.shift.y@, camera.scale.y@)
}

/// Amplitude, in raw bits, of the screen position `screen_y`.
pub open spec fn world_y_of(camera: Camera, half_height: int, screen_y: int) -> int {
    div_bits(screen_y - half_height, camera.scale.y@) - camera.shift.y@
}

impl Camera {
    /// The horizontal scale lies between one sample per pixel column and
    /// [`MAX_SCALE_X`]; the vertical scale is positive.
    pub open spec fn wf(&self) -> bool {
        &&& MIN_SCALE_X_BITS <= self.scale.x@ <= MAX_SCALE_X * FIXED_ONE
        &&& 0 < self.scale.y@
    }

    /// The camera `self` after it has taken from `source` the settings that
    /// `features` enables.
    pub open spec fn spec_synced(self, source: Camera, features: SyncFeatures) -> Camera {
        Camera {
            scale: FixedVec2 {
                x: if features.scale_x {
                    source.scale.x
                } else {
                    self.scale.x
                },
                y: if features.scale_y {
                    source.scale.y
                } else {
                    self.scale.y
                },
            },
            shift: FixedVec2 {
                x: if features.shift_x {
                    source.shift.x
                } else {
                    self.shift.x
                },
                y: if features.shift_y {
                    source.shift.y
                } else {
                    self.shift.y
                },
            },
        }
    }

    /// Copies from `source` the settings that `features` enables.
    pub fn synced(self, source: &Camera, features: SyncFeatures) -> (camera: Camera)
        ensures
            camera == self.spec_synced(*source, features),
    {
        let mut camera = self;
        if features.shift_x {
            camera.shift.x = source.shift.x;
        }
        if features.shift_y {
            camera.shift.y = source.shift.y;
        }
        if features.scale_x {
            camera.scale.x = source.scale.x;
        }
        if features.scale_y {
            camera.scale.y = source.scale.y;
        }
        camera
    }

    /// The horizontal scale after a zoom by `factor`: the product, kept
    /// between the smallest and the largest scale.
    pub open spec fn zoomed_scale_x(self, factor: int) -> int {
        clamp_bits(
            mul_bits(self.scale.x@, factor),
            MIN_SCALE_X_BITS as int,
            MAX_SCALE_X * FIXED_ONE,
        )
    }

    /// The horizontal shift after a zoom by `factor` around the point that
    /// lies `k` pixels from the centre of the viewport: that point shows the
    /// same sample before and after.
    pub open spec fn zoomed_shift_x(self, factor: int, k: int) -> int {
        mul_bits(self.scale.x@, k) + self.shift.x@ - mul_bits(self.zoomed_scale_x(factor), k)
    }

    /// The camera with another horizontal scale and shift.
    pub open spec fn with_x(self, scale_x: int, shift_x: int) -> Camera {
        Camera {
            scale: FixedVec2 { x: Fixed { bits: scale_x as i64 }, y: self.scale.y },
            shift: FixedVec2 { x: Fixed { bits: shift_x as i64 }, y: self.shift.y },
        }
    }

    /// The camera with another vertical scale and shift.
    pub open spec fn with_y(self, scale_y: int, shift_y: int) -> Camera {
        Camera {
            scale: FixedVec2 { x: self.scale.x, y: Fixed { bits: scale_y as i64 } },
            shift: FixedVec2 { x: self.shift.x, y: Fixed { bits: shift_y as i64 } },
        }
    }

    /// The camera zoomed horizontally by `factor` around the point that lies
    /// `k` pixels from the centre of the viewport; `None` where a step
    /// overflows.
    pub open spec fn spec_zoom_x(self, factor: int, k: int) -> Option<Camera> {
        if fits_i64(mul_bits(self.scale.x@, factor)) && fits_i64(mul_bits(self.scale.x@, k))
            && fits_i64(mul_bits(self.scale.x@, k) + self.shift.x@) && fits_i64(
            mul_bits(self.zoomed_scale_x(factor), k),
        ) && fits_i64(self.zoomed_shift_x(factor, k)) {
            Some(self.with_x(self.zoomed_scale_x(factor), self.zoomed_shift_x(factor, k)))
        } else {
            None
        }
    }

    /// The camera zoomed vertically by `factor`: the vertical scale is
    /// multiplied, and kept at or above a thousandth. `None` where the product
    /// overflows.
    pub open spec fn spec_zoom_y(self, factor: int) -> Option<Camera> {
        if fits_i64(mul_bits(self.scale.y@, factor)) {
            Some(
                self.with_y(
                    if mul_bits(self.scale.y@, factor) >= MIN_SCALE_Y_BITS {
                        mul_bits(self.scale.y@, factor)
                    } else {
                        MIN_SCALE_Y_BITS as int
                    },
                    self.shift.y@,
                ),
            )
        } else {
            None
        }
    }

    /// The camera moved `pixels` pixel columns to the right: the shift grows
    /// by that many times the horizontal scale. `None` where a step
    /// overflows.
    pub open spec fn spec_pan_right(self, pixels: int) -> Option<Camera> {
        if fits_i64(mul_bits(self.scale.x@, pixels)) && fits_i64(
            self.shift.x@ + mul_bits(self.scale.x@, pixels),
        ) {
            Some(self.with_x(self.scale.x@, self.shift.x@ + mul_bits(self.scale.x@, pixels)))
        } else {
            None
        }
    }

    /// The camera moved `pixels` pixel columns to the left: the shift drops
    /// by that many times the horizontal scale. `None` where a step
    /// overflows.
    pub open spec fn spec_pan_left(self, pixels: int) -> Option<Camera> {
        if fits_i64(mul_bits(self.scale.x@, pixels)) && fits_i64(
            self.shift.x@ - mul_bits(self.scale.x@, pixels),
        ) {
            Some(self.with_x(self.scale.x@, self.shift.x@ - mul_bits(self.scale.x@, pixels)))
        } else {
            None
        }
    }

    /// The camera moved down by `pixels` pixel rows: the vertical shift drops
    /// by that many pixels divided by the vertical scale. `None` where the
    /// scale is zero or a step overflows.
    pub open spec fn spec_pan_y(self, pixels: int) -> Option<Camera> {
        if self.scale.y@ != 0 && fits_i64(div_bits(pixels, self.scale.y@)) && fits_i64(
            self.shift.y@ - div_bits(pixels, self.scale.y@),
        ) {
            Some(self.with_y(self.scale.y@, self.shift.y@ - div_bits(pixels, self.scale.y@)))
        } else {
            None
        }
    }

    /// The camera that shows a trace of `trace_len` samples on `width` pixel
    /// columns: the trace fills the width, as far as the smallest and the
    /// largest scale allow, and its middle is at the centre. `None` where the
    /// width is zero or the quotient overflows.
    pub open spec fn spec_fit_x(self, trace_len: int, width: int) -> Option<Camera> {
        if width != 0 && fits_i64(div_bits(trace_len, width)) {
            Some(
                self.with_x(
                    clamp_bits(
                        div_bits(trace_len, width),
                        MIN_SCALE_X_BITS as int,
                        MAX_SCALE_X * FIXED_ONE,
                    ),
                    trunc_div(trace_len, 2),
                ),
            )
        } else {
            None
        }
    }

    /// Zooms horizontally by `factor` around the point that lies `k` pixels
    /// from the centre of the viewport. `None` where a step overflows.
    pub fn zoom_x(self, factor: Fixed, k: Fixed) -> (r: Option<Camera>)
        ensures
            r == self.spec_zoom_x(factor@, k@),
            self.wf() && r.is_some() ==> r.unwrap().wf(),
    {
        let s1 = self.scale.x;
        let s2 = match s1.checked_mul(factor) {
            Some(p) => p.clamp(
                Fixed::from_bits(MIN_SCALE_X_BITS),
                Fixed::from_bits(MAX_SCALE_X * FIXED_ONE),
            ),
            None => {
                return None;
            },
        };
        let a = match s1.checked_mul(k) {
            Some(a) => a,
            None => {
                return None;
            },
        };
        let b = match a.checked_add(self.shift.x) {
            Some(b) => b,
            None => {
                return None;
            },
        };
        let c = match s2.checked_mul(k) {
            Some(c) => c,
            None => {
                return None;
            },
        };
        match b.checked_sub(c) {
            Some(shift_x) => Some(
                Camera {
                    scale: FixedVec2 { x: s2, y: self.scale.y },
                    shift: FixedVec2 { x: shift_x, y: self.shift.y },
                },
            ),
            None => None,
        }
    }

    /// Zooms vertically by `factor`: the vertical scale is multiplied, and
    /// kept at or above a thousandth. `None` where the product overflows.
    pub fn zoom_y(self, factor: Fixed) -> (r: Option<Camera>)
        ensures
            r == self.spec_zoom_y(factor@),
            self.wf() && r.is_some() ==> r.unwrap().wf(),
    {
        match self.scale.y.checked_mul(factor) {
            Some(p) => Some(
                Camera {
                    scale: FixedVec2 {
                        x: self.scale.x,
                        y: p.max(Fixed::from_bits(MIN_SCALE_Y_BITS)),
                    },
                    shift: self.shift,
                },
            ),
            None => None,
        }
    }

    /// Moves the view `pixels` pixel columns to the right. `None` where a
    /// step overflows.
    pub fn pan_right(self, pixels: Fixed) -> (r: Option<Camera>)
        ensures
            r == self.spec_pan_right(pixels@),
            self.wf() && r.is_some() ==> r.unwrap().wf(),
    {
        match self.scale.x.checked_mul(pixels) {
            Some(d) => match self.shift.x.checked_add(d) {
                Some(x) => Some(
                    Camera { scale: self.scale, shift: FixedVec2 { x, y: self.shift.y } },
                ),
                None => None,
            },
            None => None,
        }
    }

    /// Moves the view `pixels` pixel columns to the left. `None` where a
    /// step overflows.
    pub fn pan_left(self, pixels: Fixed) -> (r: Option<Camera>)
        ensures
            r == self.spec_pan_left(pixels@),
            self.wf() && r.is_some() ==> r.unwrap().wf(),
    {
        match self.scale.x.checked_mul(pixels) {
            Some(d) => match self.shift.x.checked_sub(d) {
                Some(x) => Some(
                    Camera { scale: self.scale, shift: FixedVec2 { x, y: self.shift.y } },
                ),
                None => None,
            },
            None => None,
        }
    }

    /// Moves the view down by `pixels` pixel rows. `None` where the scale is
    /// zero or a step overflows.
    pub fn pan_y(self, pixels: Fixed) -> (r: Option<Camera>)
        ensures
            r == self.spec_pan_y(pixels@),
            self.wf() && r.is_some() ==> r.unwrap().wf(),
    {
        match pixels.checked_div(self.scale.y) {
            Some(d) => match self.shift.y.checked_sub(d) {
                Some(y) => Some(
                    Camera { scale: self.scale, shift: FixedVec2 { x: self.shift.x, y } },
                ),
                None => None,
            },
            None => None,
        }
    }

    /// Shows a trace of `trace_len` samples on `width` pixel columns. `None`
    /// where the width is zero or the quotient overflows.
    pub fn fit_x(self, trace_len: Fixed, width: Fixed) -> (r: Option<Camera>)
        ensures
            r == self.spec_fit_x(trace_len@, width@),
            self.scale.y@ > 0 && r.is_some() ==> r.unwrap().wf(),
    {
        match trace_len.checked_div(width) {
            Some(q) => Some(
                Camera {
                    scale: FixedVec2 {
                        x: q.clamp(
                            Fixed::from_bits(MIN_SCALE_X_BITS),
                            Fixed::from_bits(MAX_SCALE_X * FIXED_ONE),
                        ),
                        y: self.scale.y,
                    },
                    shift: FixedVec2 { x: Fixed::from_bits(trace_len.bits / 2), y: self.shift.y },
                },
            ),
            None => None,
        }
    }

    /// The view of a new trace: 1000 samples per pixel column, amplitudes
    /// unscaled, centred on the origin.
    pub fn new() -> (camera: Self)
        ensures
            camera.scale.x@ == 1000 * FIXED_ONE,
            camera.scale.y@ == FIXED_ONE,
            camera.shift.x@ == 0,
            camera.shift.y@ == 0,
            camera.wf(),
    {
        Self {
            scale: FixedVec2 { x: Fixed::from_int(1000), y: Fixed::from_int(1) },
            shift: FixedVec2 { x: Fixed::zero(), y: Fixed::zero() },
        }
    }

    /// True when the camera meets its invariant.
    pub fn is_wf(&self) -> (b: bool)
        ensures
            b == self.wf(),
    {
        MIN_SCALE_X_BITS <= self.scale.x.bits && self.scale.x.bits <= MAX_SCALE_X * FIXED_ONE && 0
            < self.scale.y.bits
    }

    /// True when the world position of the screen position `screen_x` can be
    /// computed without overflow.
    pub open spec fn screen_to_world_x_fits(&self, half_width: int, screen_x: int) -> bool {
        &&& fits_i64(screen_x - half_width)
        &&& fits_i64(mul_bits(self.scale.x@, screen_x - half_width))
        &&& fits_i64(world_x_of(*self, half_width, screen_x))
    }

    /// Screen position of the world position `world_x`: the half width of the
    /// viewport plus the distance to the centre divided by the scale. `None`
    /// when the scale is zero or a step overflows.
    pub fn world_to_screen_x(&self, half_width: Fixed, world_x: Fixed) -> (r: Option<Fixed>)
        ensures
            r.is_some() <==> {
                &&& self.scale.x@ != 0
                &&& fits_i64(world_x@ - self.shift.x@)
                &&& fits_i64(div_bits(world_x@ - self.shift.x@, self.scale.x@))
                &&& fits_i64(screen_x_of(*self, half_width@, world_x@))
            },
            r.is_some() ==> r.unwrap()@ == screen_x_of(*self, half_width@, world_x@),
    {
        match world_x.checked_sub(self.shift.x) {
            Some(d) => match d.checked_div(self.scale.x) {
                Some(q) => half_width.checked_add(q),
                None => None,
            },
            None => None,
        }
    }

    /// World position of the screen position `screen_x`: the distance to the
    /// centre of the viewport multiplied by the scale, plus the shift. `None`
    /// when a step overflows.
    pub fn screen_to_world_x(&self, half_width: Fixed, screen_x: Fixed) -> (r: Option<Fixed>)
        ensures
            r.is_some() <==> {
                &&& fits_i64(screen_x@ - half_width@)
                &&& fits_i64(mul_bits(self.scale.x@, screen_x@ - half_width@))
                &&& fits_i64(world_x_of(*self, half_width@, screen_x@))
            },
            r.is_some() ==> r.unwrap()@ == world_x_of(*self, half_width@, screen_x@),
    {
        match screen_x.checked_sub(half_width) {
            Some(d) => match self.scale.x.checked_mul(d) {
                Some(m) => m.checked_add(self.shift.x),
                None => None,
            },
            None => None,
        }
    }

    /// Screen row of the amplitude `world_y`: the half height of the viewport
    /// plus the shifted amplitude multiplied by the scale. `None` when a step
    /// overflows.
    pub fn world_to_screen_y(&self, half_height: Fixed, world_y: Fixed) -> (r: Option<Fixed>)
        ensures
            r.is_some() <==> {
                &&& fits_i64(world_y@ + self.shift.y@)
                &&& fits_i64(mul_bits(world_y@ + self.shift.y@, self.scale.y@))
                &&& fits_i64(screen_y_of(*self, half_height@, world_y@))
            },
            r.is_some() ==> r.unwrap()@ == screen_y_of(*self, half_height@, world_y@),
    {
        match world_y.checked_add(self.shift.y) {
            Some(s) => match s.checked_mul(self.scale.y) {
                Some(m) => half_height.checked_add(m),
                None => None,
            },
            None => None,
        }
    }

    /// Amplitude of the screen row `screen_y`: the distance to the middle of
    /// the viewport divided by the scale, minus the shift. `None` when the
    /// scale is zero or a step overflows.
    pub fn screen_to_world_y(&self, half_height: Fixed, screen_y: Fixed) -> (r: Option<Fixed>)
        ensures
            r.is_some() <==> {
                &&& self.scale.y@ != 0
                &&& fits_i64(screen_y@ - half_height@)
                &&& fits_i64(div_bits(screen_y@ - half_height@, self.scale.y@))
                &&& fits_i64(world_y_of(*self, half_height@, screen_y@))
            },
            r.is_some() ==> r.unwrap()@ == world_y_of(*self, half_height@, screen_y@),
    {
        match screen_y.checked_sub(half_height) {
            Some(d) => match d.checked_div(self.scale.y) {
                Some(q) => q.checked_sub(self.shift.y),
                None => None,
            },
            None => None,
        }
    }
}

/// Dividing a product by its factor gives the other factor back within one
/// unit, for a factor of at least one: the product was rounded down by less
/// than one unit, which is at most the factor.
pub proof fn lemma_div_of_mul(s: int, d: int)
    requires
        s >= FIXED_ONE,
    ensures
        d - 1 <= div_bits(mul_bits(s, d), s) <= d,
{
    let one = FIXED_ONE as int;
    let m = mul_bits(s, d);
    lemma_fundamental_div_mod(s * d, one);
    lemma_mod_bound(s * d, one);
    assert(one * m <= s * d < one * m + one);
    let n = m * one;
    assert(n == one * m) by (nonlinear_arith)
        requires
            n == m * one,
    ;
    if n >= 0 {
        let q = n / s;
        lemma_fundamental_div_mod(n, s);
        lemma_mod_bound(n, s);
        assert(trunc_div(n, s) == q);
        assert(q <= d) by (nonlinear_arith)
            requires
                s * q <= n,
                n <= s * d,
                s > 0,
        ;
        assert(q >= d - 1) by (nonlinear_arith)
            requires
                n < s * q + s,
                n > s * d - s,
                s > 0,
        ;
    } else {
        let q = (-n) / s;
        lemma_fundamental_div_mod(-n, s);
        lemma_mod_bound(-n, s);
        assert(trunc_div(n, s) == -q);
        assert(-q <= d) by (nonlinear_arith)
            requires
                -n < s * q + s,
                n <= s * d,
                n < 0,
                s > 0,
        ;
        assert(-q >= d - 1) by (nonlinear_arith)
            requires
                s * q <= -n,
                n > s * d - s,
                s > 0,
        ;
    }
}

/// Going from the screen to the world and back ends within one fixed-point
/// unit of the screen position that it started from, at a scale of one sample
/// per pixel column or more: the scale of every camera that meets its
/// invariant.
pub proof fn lemma_screen_round_trip(camera: Camera, half_width: int, screen_x: int)
    requires
        camera.scale.x@ >= FIXED_ONE,
    ensures
        screen_x - 1 <= screen_x_of(camera, half_width, world_x_of(camera, half_width, screen_x))
            <= screen_x,
{
    lemma_div_of_mul(camera.scale.x@, screen_x - half_width);
}

} // verus!
