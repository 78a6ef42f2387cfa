use crate::camera::{world_x_of, Camera, MAX_SCALE_X};
use crate::renderer::RENDERER_MAX_PIXELS;
use crate::tiling::{
    after_get,
    got,
    Retention,
    TileProperties,
    TileSize,
    TileStatus,
    TileView,
    Tiling,
};
use crate::util::{div_bits, fits_i64, mul_bits, trunc_div, Fixed, FIXED_ONE};
use vstd::prelude::*;

verus! {

/// Width of the tiles, in pixel columns.
///
/// Narrower tiles take more calls of the renderer to fill the screen; wider
/// tiles need more samples at once, which limits how far one can zoom out.
pub const TILE_WIDTH: u32 = 64;

/// Largest number of samples per pixel column at which a tile still fits in
/// what a renderer takes at once.
pub const MIN_SCALE_X: usize = 524287;

/// Number of samples per pixel column below which the trace is drawn as
/// lines rather than as density tiles.
pub const LINES_RENDERING_SCALE_LIMIT: i32 = 5;

/// What the pointer did to a viewer during one update. It decides whether
/// the other viewers follow and whether new tiles may be requested.
#[derive(Debug, Clone, Copy, PartialEq, Eq, Structural)]
pub struct ViewerUpdateStatus {
    pub zooming: bool,
    pub dragging_x: bool,
    pub dragging_y: bool,
}

impl ViewerUpdateStatus {
    /// True when the camera of the viewer is being changed.
    pub open spec fn spec_changing(&self) -> bool {
        self.dragging_x || self.dragging_y || self.zooming
    }

    /// True when new tiles may be requested: the scale and the vertical
    /// shift are at rest. A horizontal drag only asks for tiles at the
    /// edges, which is cheap.
    pub open spec fn spec_allows_tile_requests(&self) -> bool {
        !self.zooming && !self.dragging_y
    }

    /// True when the camera of the viewer is being changed.
    pub fn changing(&self) -> (b: bool)
        ensures
            b == self.spec_changing(),
    {
        self.dragging_x || self.dragging_y || self.zooming
    }

    /// True when new tiles may be requested.
    pub fn allows_tile_requests(&self) -> (b: bool)
        ensures
            b == self.spec_allows_tile_requests(),
    {
        !self.zooming && !self.dragging_y
    }
}

/// Tool of the left mouse button.
#[derive(Debug, Clone, Copy, PartialEq, Eq, Structural)]
pub enum Tool {
    /// Pan the view.
    Move,
    /// Select a time range.
    Range,
    /// Count intervals with a time range and a time mark.
    Count,
}

impl Tool {
    /// Name of the tool as a string.
    pub open spec fn spec_name(&self) -> Seq<char> {
        match self {
            Tool::Move => "Move"@,
            Tool::Range => "Range"@,
            Tool::Count => "Count"@,
        }
    }

    /// Name of the tool, as the tool bar shows it.
    pub fn name(&self) -> (s: &'static str)
        ensures
            s@ == self.spec_name(),
    {
        match self {
            Tool::Move => "Move",
            Tool::Range => "Range",
            Tool::Count => "Count",
        }
    }
}

/// Distance of the tile column `a` from the column `mid`.
pub open spec fn distance(a: int, mid: int) -> int {
    if a >= mid {
        a - mid
    } else {
        mid - a
    }
}

/// True when the tile column `a` is rendered before the column `b`: it is
/// nearer to `mid`, or as near and to the left.
pub open spec fn before(a: int, b: int, mid: int) -> bool {
    distance(a, mid) < distance(b, mid) || (distance(a, mid) == distance(b, mid) && a < b)
}

/// The column in the middle of the columns from `start` up to `end`.
pub open spec fn middle(start: int, end: int) -> int {
    trunc_div(start + end, 2)
}

/// Number of columns from `start` up to `end` that are nearer to `mid` than
/// `d`.
pub open spec fn nearer_count(start: int, end: int, mid: int, d: int) -> int {
    let lo = if mid - d + 1 > start {
        mid - d + 1
    } else {
        start
    };
    let hi = if mid + d < end {
        mid + d
    } else {
        end
    };
    if hi > lo {
        hi - lo
    } else {
        0
    }
}

/// The tile columns from `start` up to, and without, `end`, from the middle
/// outwards: every column once, a column nearer to the middle before one
/// farther away, and the left one first of two that are as near.
pub fn center_out(start: i32, end: i32) -> (order: Vec<i32>)
    ensures
        order@.len() == if end > start {
            end - start
        } else {
            0
        },
        forall|k: int| 0 <= k < order@.len() ==> start <= #[trigger] order@[k] < end,
        forall|j: int, k: int|
            0 <= j < k < order@.len() ==> before(
                #[trigger] order@[j] as int,
                #[trigger] order@[k] as int,
                middle(start as int, end as int),
            ),
{
    let mut order: Vec<i32> = Vec::new();
    if start >= end {
        return order;
    }
    let first: i64 = start as i64;
    let last: i64 = end as i64;
    let mid: i64 = (first + last) / 2;
    let mut d: i64 = 0;
    while mid - d >= first || mid + d < last
        invariant
            first == start,
            last == end,
            first < last,
            mid == middle(start as int, end as int),
            first <= mid <= last,
            0 <= d <= last - first + 1,
            order@.len() == nearer_count(first as int, last as int, mid as int, d as int),
            forall|k: int|
                0 <= k < order@.len() ==> start <= #[trigger] order@[k] < end && distance(
                    order@[k] as int,
                    mid as int,
                ) < d,
            forall|j: int, k: int|
                0 <= j < k < order@.len() ==> before(
                    #[trigger] order@[j] as int,
                    #[trigger] order@[k] as int,
                    mid as int,
                ),
        decreases
                (if mid - d >= first {
                    mid - d - first + 1
                } else {
                    0
                }) + (if mid + d < last {
                    last - mid - d
                } else {
                    0
                }),
    {
        let lo: i64 = mid - d;
        let hi: i64 = mid + d;
        if first <= lo && lo < last {
            order.push(lo as i32);
        }
        if d > 0 && first <= hi && hi < last {
            order.push(hi as i32);
        }
        d += 1;
    }
    order
}

/// Tile column at the left edge of a viewport whose half width, in pixels,
/// is `half_width`: the column that holds the pixel at the left edge.
pub open spec fn first_tile(camera: Camera, half_width: int) -> int {
    div_bits(
        div_bits(camera.shift.x@, camera.scale.x@) - half_width,
        TILE_WIDTH * FIXED_ONE,
    ) / (FIXED_ONE as int)
}

/// Tile column after the one at the right edge of the viewport.
pub open spec fn end_tile(camera: Camera, half_width: int) -> int {
    (div_bits(
        half_width + div_bits(camera.shift.x@, camera.scale.x@),
        TILE_WIDTH * FIXED_ONE,
    ) + FIXED_ONE - 1) / (FIXED_ONE as int)
}

/// The identity of the tile column `index` of the viewer `owner_id`, at the
/// settings of `camera` and for a viewport of `height` pixel rows.
pub open spec fn tile_of(camera: Camera, owner_id: u32, height: u32, index: i32) -> TileProperties {
    TileProperties {
        owner_id,
        scale: camera.scale,
        offset: camera.shift.y,
        index,
        size: TileSize { w: TILE_WIDTH, h: height },
    }
}

/// The tile columns that cover the viewport, or `None` where a step of the
/// computation overflows or a column does not fit in 32 bits.
pub fn viewport_columns(camera: &Camera, half_width: Fixed) -> (r: Option<(i32, i32)>)
    ensures
        r.is_some() <==> {
            &&& camera.scale.x@ != 0
            &&& fits_i64(div_bits(camera.shift.x@, camera.scale.x@))
            &&& fits_i64(div_bits(camera.shift.x@, camera.scale.x@) - half_width@)
            &&& fits_i64(half_width@ + div_bits(camera.shift.x@, camera.scale.x@))
            &&& i32::MIN <= first_tile(*camera, half_width@) <= i32::MAX
            &&& i32::MIN <= end_tile(*camera, half_width@) <= i32::MAX
        },
        r.is_some() ==> r.unwrap().0 == first_tile(*camera, half_width@) && r.unwrap().1
            == end_tile(*camera, half_width@),
{
    let tile_width = Fixed::from_int(64);
    let dx = match camera.shift.x.checked_div(camera.scale.x) {
        Some(v) => v,
        None => {
            return None;
        },
    };
    let left = match dx.checked_sub(half_width) {
        Some(v) => v,
        None => {
            return None;
        },
    };
    let right = match half_width.checked_add(dx) {
        Some(v) => v,
        None => {
            return None;
        },
    };
    proof {
        lemma_tile_quotient_fits(left@);
        lemma_tile_quotient_fits(right@);
    }
    let start = match left.checked_div(tile_width) {
        Some(v) => v.floor_to_int(),
        None => {
            return None;
        },
    };
    let end = match right.checked_div(tile_width) {
        Some(v) => v.ceil_to_int(),
        None => {
            return None;
        },
    };
    if start < i32::MIN as i64 || start > i32::MAX as i64 || end < i32::MIN as i64 || end
        > i32::MAX as i64 {
        return None;
    }
    Some((start as i32, end as i32))
}

/// A position divided by the width of a tile fits where the position does.
proof fn lemma_tile_quotient_fits(a: int)
    requires
        fits_i64(a),
    ensures
        fits_i64(div_bits(a, TILE_WIDTH * FIXED_ONE)),
{
    let one = FIXED_ONE as int;
    let d = TILE_WIDTH * FIXED_ONE;
    assert(d == 64 * one);
    if a >= 0 {
        assert((a * one) / d <= a) by (nonlinear_arith)
            requires
                a >= 0,
                d == 64 * one,
                one == 0x100_0000,
        ;
        assert((a * one) / d >= 0) by (nonlinear_arith)
            requires
                a >= 0,
                d == 64 * one,
                one == 0x100_0000,
        ;
    } else {
        assert(((-a) * one) / d <= -a) by (nonlinear_arith)
            requires
                a < 0,
                d == 64 * one,
                one == 0x100_0000,
        ;
        assert(((-a) * one) / d >= 0) by (nonlinear_arith)
            requires
                a < 0,
                d == 64 * one,
                one == 0x100_0000,
        ;
        assert(-(a * one) == (-a) * one) by (nonlinear_arith);
    }
}

/// How a viewer shows its trace.
#[derive(Debug, Clone, Copy, PartialEq, Eq, Structural)]
pub enum RenderMode {
    /// As density tiles.
    Density,
    /// As lines between the samples, which suits a view of few samples per
    /// pixel column.
    Lines,
}

/// The way in which a view at the scale `scale_x` is shown: as lines below
/// [`LINES_RENDERING_SCALE_LIMIT`] samples per pixel column, as density
/// tiles from there on.
pub open spec fn render_mode_of(scale_x: int) -> RenderMode {
    if scale_x < LINES_RENDERING_SCALE_LIMIT * FIXED_ONE {
        RenderMode::Lines
    } else {
        RenderMode::Density
    }
}

/// The way in which the view of `camera` is shown.
pub fn render_mode(camera: &Camera) -> (mode: RenderMode)
    ensures
        mode == render_mode_of(camera.scale.x@),
{
    if camera.scale.x.bits < (LINES_RENDERING_SCALE_LIMIT as i64) * FIXED_ONE {
        RenderMode::Lines
    } else {
        RenderMode::Density
    }
}

/// True when the tiles of a viewport of `height` pixel rows can be rendered
/// at the settings of `camera`: the view is shown as density tiles, its
/// scale is not above the largest one, and a tile has no more pixels than a
/// renderer computes at once.
pub open spec fn tiles_renderable(camera: Camera, height: u32) -> bool {
    &&& render_mode_of(camera.scale.x@) == RenderMode::Density
    &&& camera.scale.x@ <= MAX_SCALE_X * FIXED_ONE
    &&& TILE_WIDTH * height <= RENDERER_MAX_PIXELS
}

/// The tiles of a viewport whose tiles can be rendered are valid.
pub proof fn lemma_viewport_tiles_valid(camera: Camera, owner_id: u32, height: u32, index: i32)
    requires
        tiles_renderable(camera, height),
    ensures
        tile_of(camera, owner_id, height, index).valid(),
{
    let s = camera.scale.x@;
    assert(TILE_WIDTH * s <= TILE_WIDTH * (MAX_SCALE_X * FIXED_ONE)) by (nonlinear_arith)
        requires
            s <= MAX_SCALE_X * FIXED_ONE,
    ;
    vstd::arithmetic::div_mod::lemma_div_is_ordered(
        TILE_WIDTH * s,
        TILE_WIDTH * (MAX_SCALE_X * FIXED_ONE),
        FIXED_ONE as int,
    );
}

/// The tiles that show the trace at full resolution in the viewport, at the
/// settings of `camera`: one per tile column of the viewport, the columns
/// from the middle outwards, so that the centre is rendered first. `None`
/// where the columns cannot be computed.
pub fn compute_viewport_tiles(camera: &Camera, owner_id: u32, half_width: Fixed, height: u32) -> (r:
    Option<Vec<TileProperties>>)
    ensures
        r.is_some() == (camera.scale.x@ != 0 && fits_i64(
            div_bits(camera.shift.x@, camera.scale.x@),
        ) && fits_i64(div_bits(camera.shift.x@, camera.scale.x@) - half_width@) && fits_i64(
            half_width@ + div_bits(camera.shift.x@, camera.scale.x@),
        ) && i32::MIN <= first_tile(*camera, half_width@) <= i32::MAX && i32::MIN <= end_tile(
            *camera,
            half_width@,
        ) <= i32::MAX),
        r.is_some() ==> {
            let tiles = r.unwrap()@;
            let start = first_tile(*camera, half_width@);
            let end = end_tile(*camera, half_width@);
            &&& tiles.len() == if end > start {
                end - start
            } else {
                0
            }
            &&& forall|k: int|
                0 <= k < tiles.len() ==> start <= (#[trigger] tiles[k]).index < end && tiles[k]
                    == tile_of(*camera, owner_id, height, tiles[k].index)
            &&& forall|j: int, k: int|
                0 <= j < k < tiles.len() ==> before(
                    (#[trigger] tiles[j]).index as int,
                    (#[trigger] tiles[k]).index as int,
                    middle(start, end),
                )
            &&& tiles_renderable(*camera, height) ==> forall|k: int|
                0 <= k < tiles.len() ==> (#[trigger] tiles[k]).valid()
        },
{
    let (start, end) = match viewport_columns(camera, half_width) {
        Some(c) => c,
        None => {
            return None;
        },
    };
    let order = center_out(start, end);
    let mut tiles: Vec<TileProperties> = Vec::new();
    let mut k: usize = 0;
    while k < order.len()
        invariant
            k <= order@.len(),
            tiles@.len() == k,
            forall|j: int|
                0 <= j < k ==> (#[trigger] tiles@[j]).index == order@[j] && tiles@[j] == tile_of(
                    *camera,
                    owner_id,
                    height,
                    order@[j],
                ),
        decreases order@.len() - k,
    {
        tiles.push(
            TileProperties {
                owner_id,
                scale: camera.scale,
                offset: camera.shift.y,
                index: order[k],
                size: TileSize::new(TILE_WIDTH, height),
            },
        );
        k += 1;
    }
    proof {
        if tiles_renderable(*camera, height) {
            assert forall|j: int| 0 <= j < tiles@.len() implies (#[trigger] tiles@[j]).valid() by {
                lemma_viewport_tiles_valid(*camera, owner_id, height, tiles@[j].index);
            }
        }
    }
    Some(tiles)
}

/// The cache after each of the tiles `required` has been asked for, in
/// their order.
pub open spec fn after_requests(s: Seq<TileView>, required: Seq<TileProperties>) -> Seq<TileView>
    decreases required.len(),
{
    if required.len() == 0 {
        s
    } else {
        after_get(after_requests(s, required.drop_last()), required.last(), true)
    }
}

/// True when each of the tiles `required` is rendered at the time that it is
/// asked for.
pub open spec fn all_rendered(s: Seq<TileView>, required: Seq<TileProperties>) -> bool
    decreases required.len(),
{
    if required.len() == 0 {
        true
    } else {
        &&& all_rendered(s, required.drop_last())
        &&& got(after_requests(s, required.drop_last()), required.last(), true) matches Some(t)
            && t.status == TileStatus::Rendered
    }
}

/// Asks the cache for each of the tiles `required`, so that the missing ones
/// are added for the workers. Returns `true` when all of them are rendered.
pub fn request_tiles(tiling: &mut Tiling, required: &Vec<TileProperties>) -> (complete: bool)
    requires
        old(tiling).wf(),
        forall|k: int| 0 <= k < required@.len() ==> (#[trigger] required@[k]).valid(),
    ensures
        final(tiling).wf(),
        final(tiling)@ == after_requests(old(tiling)@, required@),
        complete == all_rendered(old(tiling)@, required@),
{
    let mut complete = true;
    let mut k: usize = 0;
    assert(required@.take(0) =~= Seq::<TileProperties>::empty());
    while k < required.len()
        invariant
            k <= required@.len(),
            tiling.wf(),
            forall|j: int| 0 <= j < required@.len() ==> (#[trigger] required@[j]).valid(),
            tiling@ == after_requests(old(tiling)@, required@.take(k as int)),
            complete == all_rendered(old(tiling)@, required@.take(k as int)),
        decreases required@.len() - k,
    {
        proof {
            assert(required@.take(k + 1).drop_last() =~= required@.take(k as int));
            assert(required@.take(k + 1).last() == required@[k as int]);
        }
        let rendered = match tiling.get(required[k], true) {
            Some(tile) => tile.status == TileStatus::Rendered,
            None => false,
        };
        complete = complete && rendered;
        k += 1;
    }
    assert(required@.take(required@.len() as int) =~= required@);
    complete
}

/// Brings the cache up to date with the view. The tiles `required` are asked
/// for. Once all of them are rendered, the tiles that `keep` does not keep are
/// dropped, and `false` is returned. Until then nothing is dropped and `true`
/// is returned: a sleeping worker must be woken.
pub fn refresh_cache(tiling: &mut Tiling, required: &Vec<TileProperties>, keep: &Retention) -> (wake:
    bool)
    requires
        old(tiling).wf(),
        forall|k: int| 0 <= k < required@.len() ==> (#[trigger] required@[k]).valid(),
    ensures
        final(tiling).wf(),
        wake == !all_rendered(old(tiling)@, required@),
        wake ==> final(tiling)@ == after_requests(old(tiling)@, required@),
        !wake ==> final(tiling)@ == after_requests(old(tiling)@, required@).filter(
            keep.keeps_tile(),
        ),
{
    if request_tiles(tiling, required) {
        tiling.retain(keep);
        false
    } else {
        true
    }
}

/// What the tool of the left mouse button has marked so far.
///
/// A range takes two clicks, a count three; one more click clears the marks.
/// Between the clicks the last mark follows the pointer.
#[derive(Debug)]
pub struct ToolState {
    pub tool: Tool,
    /// Number of clicks so far.
    pub step: u8,
    /// The marked times, in samples.
    pub times: Vec<Fixed>,
}

/// Number of marks after `step` clicks of `tool`.
pub open spec fn marks_of(tool: Tool, step: u8) -> int {
    match tool {
        Tool::Move => 0,
        Tool::Range => if step == 0 {
            0
        } else {
            2
        },
        Tool::Count => if step == 0 {
            0
        } else if step == 1 {
            2
        } else {
            3
        },
    }
}

/// Largest number of clicks of `tool`.
pub open spec fn last_step(tool: Tool) -> int {
    match tool {
        Tool::Move => 0,
        Tool::Range => 2,
        Tool::Count => 3,
    }
}

/// The step after an update of `tool` at `step`.
pub open spec fn next_step(tool: Tool, step: u8, pressed: bool) -> u8 {
    if !pressed || tool == Tool::Move {
        step
    } else if step >= last_step(tool) {
        0
    } else {
        (step + 1) as u8
    }
}

/// The marks after an update of `tool` at `step`, with the pointer at `x`.
pub open spec fn next_times(tool: Tool, step: u8, times: Seq<Fixed>, x: Fixed, pressed: bool) -> Seq<
    Fixed,
> {
    match tool {
        Tool::Move => times,
        Tool::Range => if step == 0 {
            if pressed {
                seq![x, x]
            } else {
                times
            }
        } else if step == 1 {
            times.update(1, x)
        } else if pressed {
            Seq::empty()
        } else {
            times
        },
        Tool::Count => if step == 0 {
            if pressed {
                seq![x, x]
            } else {
                times
            }
        } else if step == 1 {
            if pressed {
                times.update(1, x).push(x)
            } else {
                times.update(1, x)
            }
        } else if step == 2 {
            times.update(2, x)
        } else if pressed {
            Seq::empty()
        } else {
            times
        },
    }
}

impl ToolState {
    /// The marks are as many as the clicks of the tool have set.
    pub open spec fn wf(&self) -> bool {
        &&& self.step <= last_step(self.tool)
        &&& self.times@.len() == marks_of(self.tool, self.step)
    }

    /// The tool that pans the view, without marks.
    pub fn new() -> (state: Self)
        ensures
            state.tool == Tool::Move,
            state.step == 0,
            state.times@.len() == 0,
            state.wf(),
    {
        Self { tool: Tool::Move, step: 0, times: Vec::new() }
    }

    /// Takes up `tool`. The marks of another tool are dropped.
    pub fn select(&mut self, tool: Tool)
        requires
            old(self).wf(),
        ensures
            final(self).wf(),
            final(self).tool == tool,
            tool == old(self).tool ==> final(self).step == old(self).step && final(self).times@
                == old(self).times@,
            tool != old(self).tool ==> final(self).step == 0 && final(self).times@.len() == 0,
    {
        if self.tool != tool {
            self.tool = tool;
            self.times.clear();
            self.step = 0;
        }
    }

    /// Takes one update into account: the pointer is at the time `world_x`,
    /// and `left_pressed` says whether the left button has just been pressed.
    pub fn update(&mut self, world_x: Fixed, left_pressed: bool)
        requires
            old(self).wf(),
        ensures
            final(self).wf(),
            final(self).tool == old(self).tool,
            final(self).step == next_step(old(self).tool, old(self).step, left_pressed),
            final(self).times@ == next_times(
                old(self).tool,
                old(self).step,
                old(self).times@,
                world_x,
                left_pressed,
            ),
    {
        match self.tool {
            Tool::Move => {},
            Tool::Range => {
                if self.step == 0 {
                    if left_pressed {
                        self.times.clear();
                        self.times.push(world_x);
                        self.times.push(world_x);
                        self.step = 1;
                        assert(self.times@ =~= seq![world_x, world_x]);
                    }
                } else if self.step == 1 {
                    self.times.set(1, world_x);
                    if left_pressed {
                        self.step = 2;
                    }
                } else {
                    if left_pressed {
                        self.times.clear();
                        self.step = 0;
                    }
                }
            },
            Tool::Count => {
                if self.step == 0 {
                    if left_pressed {
                        self.times.clear();
                        self.times.push(world_x);
                        self.times.push(world_x);
                        self.step = 1;
                        assert(self.times@ =~= seq![world_x, world_x]);
                    }
                } else if self.step == 1 {
                    self.times.set(1, world_x);
                    if left_pressed {
                        self.times.push(world_x);
                        self.step = 2;
                    }
                } else if self.step == 2 {
                    self.times.set(2, world_x);
                    if left_pressed {
                        self.step = 3;
                    }
                } else {
                    if left_pressed {
                        self.times.clear();
                        self.step = 0;
                    }
                }
            },
        }
    }
}

/// `v` kept between zero and `len`.
pub open spec fn clamp_index(v: int, len: int) -> int {
    if v < 0 {
        0
    } else if v > len {
        len
    } else {
        v
    }
}

/// The samples to draw as lines between the screen positions `left` and
/// `right`: from the sample at or before `left` up to the second sample
/// after `right`, inside a trace of `trace_len` samples. `None` where a
/// position cannot be turned into a sample.
pub fn visible_samples(
    camera: &Camera,
    half_width: Fixed,
    left: Fixed,
    right: Fixed,
    trace_len: usize,
) -> (r: Option<(usize, usize)>)
    ensures
        r.is_some() == (camera.screen_to_world_x_fits(half_width@, left@)
            && camera.screen_to_world_x_fits(half_width@, right@)),
        r.is_some() ==> {
            &&& r.unwrap().0 == clamp_index(
                world_x_of(*camera, half_width@, left@) / (FIXED_ONE as int),
                trace_len as int,
            )
            &&& r.unwrap().1 == clamp_index(
                (world_x_of(*camera, half_width@, right@) + FIXED_ONE - 1) / (FIXED_ONE as int) + 1,
                trace_len as int,
            )
        },
{
    let a = match camera.screen_to_world_x(half_width, left) {
        Some(v) => v.floor_to_int(),
        None => {
            return None;
        },
    };
    let b = match camera.screen_to_world_x(half_width, right) {
        Some(v) => v.ceil_to_int() + 1,
        None => {
            return None;
        },
    };
    let first: usize = if a < 0 {
        0
    } else if a as u64 > trace_len as u64 {
        trace_len
    } else {
        a as usize
    };
    let last: usize = if b < 0 {
        0
    } else if b as u64 > trace_len as u64 {
        trace_len
    } else {
        b as usize
    };
    Some((first, last))
}

/// Width on the screen, in raw bits of pixels, of a tile rendered at the
/// scale `tile_scale_x` and shown by `camera`.
pub open spec fn shown_tile_width(camera: Camera, tile_scale_x: int) -> int {
    div_bits(mul_bits(TILE_WIDTH * FIXED_ONE, tile_scale_x), camera.scale.x@)
}

/// Screen position, in raw bits of pixels, of the left edge of the tile
/// `properties` shown by `camera`. The tile may have been rendered at another
/// scale than the one of the camera.
pub open spec fn shown_tile_left(camera: Camera, properties: TileProperties, half_width: int) -> int {
    mul_bits(properties.index * FIXED_ONE, shown_tile_width(camera, properties.scale.x@)) - div_bits(
        camera.shift.x@,
        camera.scale.x@,
    ) + half_width
}

/// True when the edges of the tile `properties` on the screen can be
/// computed: the scale of the camera is not zero, and no step overflows.
pub open spec fn tile_span_fits(camera: Camera, properties: TileProperties, half_width: int) -> bool {
    &&& camera.scale.x@ != 0
    &&& fits_i64(mul_bits(TILE_WIDTH * FIXED_ONE, properties.scale.x@))
    &&& fits_i64(shown_tile_width(camera, properties.scale.x@))
    &&& fits_i64(div_bits(camera.shift.x@, camera.scale.x@))
    &&& fits_i64(
        mul_bits(properties.index * FIXED_ONE, shown_tile_width(camera, properties.scale.x@)),
    )
    &&& fits_i64(
        mul_bits(properties.index * FIXED_ONE, shown_tile_width(camera, properties.scale.x@))
            - div_bits(camera.shift.x@, camera.scale.x@),
    )
    &&& fits_i64(shown_tile_left(camera, properties, half_width))
    &&& fits_i64(
        shown_tile_left(camera, properties, half_width) + shown_tile_width(
            camera,
            properties.scale.x@,
        ),
    )
}

/// The left and right edges on the screen of the tile `properties`, for a
/// viewport whose half width is `half_width`. `None` where the scale of the
/// camera is zero or a step overflows.
pub fn tile_span_x(camera: &Camera, properties: &TileProperties, half_width: Fixed) -> (r: Option<
    (Fixed, Fixed),
>)
    ensures
        r.is_some() == tile_span_fits(*camera, *properties, half_width@),
        r.is_some() ==> r.unwrap().0@ == shown_tile_left(*camera, *properties, half_width@)
            && r.unwrap().1@ == shown_tile_left(*camera, *properties, half_width@)
            + shown_tile_width(*camera, properties.scale.x@),
{
    let scaled = match Fixed::from_int(64).checked_mul(properties.scale.x) {
        Some(v) => v,
        None => {
            return None;
        },
    };
    let width = match scaled.checked_div(camera.scale.x) {
        Some(v) => v,
        None => {
            return None;
        },
    };
    let shift = match camera.shift.x.checked_div(camera.scale.x) {
        Some(v) => v,
        None => {
            return None;
        },
    };
    let at = match Fixed::from_int(properties.index).checked_mul(width) {
        Some(v) => v,
        None => {
            return None;
        },
    };
    let moved = match at.checked_sub(shift) {
        Some(v) => v,
        None => {
            return None;
        },
    };
    let left = match moved.checked_add(half_width) {
        Some(v) => v,
        None => {
            return None;
        },
    };
    match left.checked_add(width) {
        Some(right) => Some((left, right)),
        None => None,
    }
}

/// What the pointer and the keys did since the last update of a viewer.
#[derive(Debug, Clone, Copy, PartialEq, Eq, Structural)]
pub struct ViewerInput {
    /// The pointer is over the viewer, and not over a widget above it.
    pub hovered: bool,
    /// The wheel has turned.
    pub scrolled: bool,
    /// The alt key is down.
    pub alt: bool,
    /// Distance, in pixels, of the pointer from the centre of the viewport,
    /// where the pointer is known.
    pub pointer: Option<Fixed>,
    /// Factor of the horizontal scale for the turn of the wheel.
    pub factor_x: Fixed,
    /// Factor of the vertical scale for the turn of the wheel.
    pub factor_y: Fixed,
    /// The left arrow key is down.
    pub key_left: bool,
    /// The right arrow key is down.
    pub key_right: bool,
    /// Number of pixels that an arrow key moves the view in the time since
    /// the last update.
    pub key_step: Fixed,
    /// The viewer is dragged with the secondary button.
    pub dragged_secondary: bool,
    /// The viewer is dragged with the primary button.
    pub dragged_primary: bool,
    /// The drag has moved horizontally, by `drag_x` pixels.
    pub moved_x: bool,
    pub drag_x: Fixed,
    /// The drag has moved vertically, by `drag_y` pixels.
    pub moved_y: bool,
    pub drag_y: Fixed,
}

impl ViewerInput {
    /// True when the wheel zooms this viewer.
    pub open spec fn zooms(&self) -> bool {
        self.scrolled && self.hovered
    }

    /// True when a drag moves the view: a drag with the secondary button, or
    /// with the primary button while the tool pans.
    pub open spec fn drags(&self, tool: Tool) -> bool {
        self.dragged_secondary || (self.dragged_primary && tool == Tool::Move)
    }

    /// What the input does to the camera, and to the state of a viewer with
    /// the tool `tool`.
    pub open spec fn status(&self, tool: Tool) -> ViewerUpdateStatus {
        ViewerUpdateStatus {
            zooming: self.zooms(),
            dragging_x: self.drags(tool) && !self.alt && self.moved_x,
            dragging_y: self.drags(tool) && self.alt && self.moved_y,
        }
    }
}

/// Applies the input of one update to the camera of a viewer with the tool
/// `tool`, in this order: the wheel zooms, vertically with the alt key and
/// else horizontally around the pointer; one arrow key alone moves the view;
/// a drag moves it, vertically with the alt key and else horizontally.
/// Returns the camera and what was done to it, or `None` where a step
/// overflows. A camera that meets its invariant still meets it afterwards:
/// the scale stays between one sample per pixel column and the largest one.
pub fn apply_input(camera: Camera, tool: Tool, input: &ViewerInput) -> (r: Option<
    (Camera, ViewerUpdateStatus),
>)
    ensures
        r == match after_input(camera, tool, *input) {
            Some(c) => Some((c, input.status(tool))),
            None => None,
        },
        camera.wf() && r.is_some() ==> r.unwrap().0.wf(),
{
    proof {
        if camera.wf() && after_input(camera, tool, *input).is_some() {
            lemma_input_keeps_camera_wf(camera, tool, *input);
        }
    }
    let mut current = camera;
    let zooming = input.scrolled && input.hovered;
    if zooming {
        if input.alt {
            match current.zoom_y(input.factor_y) {
                Some(c) => {
                    current = c;
                },
                None => {
                    return None;
                },
            }
        } else {
            match input.pointer {
                Some(k) => match current.zoom_x(input.factor_x, k) {
                    Some(c) => {
                        current = c;
                    },
                    None => {
                        return None;
                    },
                },
                None => {},
            }
        }
    }
    if input.key_left && !input.key_right {
        match current.pan_left(input.key_step) {
            Some(c) => {
                current = c;
            },
            None => {
                return None;
            },
        }
    }
    if input.key_right && !input.key_left {
        match current.pan_right(input.key_step) {
            Some(c) => {
                current = c;
            },
            None => {
                return None;
            },
        }
    }
    let mut dragging_x = false;
    let mut dragging_y = false;
    if input.dragged_secondary || (input.dragged_primary && tool == Tool::Move) {
        if input.alt {
            if input.moved_y {
                match current.pan_y(input.drag_y) {
                    Some(c) => {
                        current = c;
                    },
                    None => {
                        return None;
                    },
                }
                dragging_y = true;
            }
        } else if input.moved_x {
            match current.pan_left(input.drag_x) {
                Some(c) => {
                    current = c;
                },
                None => {
                    return None;
                },
            }
            dragging_x = true;
        }
    }
    Some((current, ViewerUpdateStatus { zooming, dragging_x, dragging_y }))
}

/// The camera after the wheel of `input` has been applied; `None` where a
/// step overflows or has overflowed before.
pub open spec fn after_wheel(camera: Option<Camera>, input: ViewerInput) -> Option<Camera> {
    match camera {
        None => None,
        Some(c) => if !input.zooms() {
            Some(c)
        } else if input.alt {
            c.spec_zoom_y(input.factor_y@)
        } else {
            match input.pointer {
                Some(k) => c.spec_zoom_x(input.factor_x@, k@),
                None => Some(c),
            }
        },
    }
}

/// The camera after the arrow keys of `input` have been applied.
pub open spec fn after_keys(camera: Option<Camera>, input: ViewerInput) -> Option<Camera> {
    match camera {
        None => None,
        Some(c) => if input.key_left && !input.key_right {
            c.spec_pan_left(input.key_step@)
        } else if input.key_right && !input.key_left {
            c.spec_pan_right(input.key_step@)
        } else {
            Some(c)
        },
    }
}

/// The camera after the drag of `input` has been applied.
pub open spec fn after_drag(camera: Option<Camera>, tool: Tool, input: ViewerInput) -> Option<
    Camera,
> {
    match camera {
        None => None,
        Some(c) => if !input.drags(tool) {
            Some(c)
        } else if input.alt {
            if input.moved_y {
                c.spec_pan_y(input.drag_y@)
            } else {
                Some(c)
            }
        } else if input.moved_x {
            c.spec_pan_left(input.drag_x@)
        } else {
            Some(c)
        },
    }
}

/// The camera after the whole input has been applied.
pub open spec fn after_input(camera: Camera, tool: Tool, input: ViewerInput) -> Option<Camera> {
    after_drag(after_keys(after_wheel(Some(camera), input), input), tool, input)
}

/// Input keeps the camera within its bounds: a zoom stops at the smallest
/// and at the largest scale, and moving the view changes no scale.
pub proof fn lemma_input_keeps_camera_wf(camera: Camera, tool: Tool, input: ViewerInput)
    requires
        camera.wf(),
        after_input(camera, tool, input).is_some(),
    ensures
        after_input(camera, tool, input).unwrap().wf(),
{
    let zoomed = after_wheel(Some(camera), input);
    assert(zoomed.unwrap().wf());
    let moved = after_keys(zoomed, input);
    assert(moved.unwrap().wf());
}

} // verus!
