use vstd::arithmetic::div_mod::{
    lemma_div_pos_is_pos,
    lemma_fundamental_div_mod,
    lemma_fundamental_div_mod_converse,
    lemma_mod_bound,
};
use vstd::prelude::*;

verus! {

/// Maximum number of trace points that the accelerated renderer takes at once.
pub const RENDERER_MAX_TRACE_SIZE: usize = 33554432;

/// Maximum number of pixels that the accelerated renderer computes at once.
pub const RENDERER_MAX_PIXELS: usize = 524288;

/// Number of pixels that one workgroup of the accelerated renderer computes.
pub const RENDERER_WORKGROUP_SIZE: usize = 64;

/// Pixel column of the segment that starts at sample `i` of a chunk of `chunk`
/// samples drawn on `w` columns: `i * w / chunk` rounded down, and never past
/// the last column.
pub open spec fn column_of(i: int, w: int, chunk: int) -> int {
    if (i * w) / chunk > w - 1 {
        w - 1
    } else {
        (i * w) / chunk
    }
}

/// Pixel row of a sample whose scaled amplitude is `level`, on `h` rows.
pub open spec fn row_of(level: i32, h: int) -> int {
    h / 2 + level
}

/// True when the segment from sample `i` to sample `i + 1` lies in column `x`
/// and passes through row `y`.
pub open spec fn segment_hits(
    chunk: int,
    levels: Seq<i32>,
    w: int,
    h: int,
    i: int,
    x: int,
    y: int,
) -> bool {
    &&& column_of(i, w, chunk) == x
    &&& (row_of(levels[i], h) <= y <= row_of(levels[i + 1], h) || row_of(levels[i + 1], h) <= y
        <= row_of(levels[i], h))
}

/// Number of segments among the first `n` that pass through the pixel
/// `(x, y)`.
pub open spec fn hits(chunk: int, levels: Seq<i32>, w: int, h: int, x: int, y: int, n: int) -> int
    decreases n,
{
    if n <= 0 {
        0
    } else {
        hits(chunk, levels, w, h, x, y, n - 1) + if segment_hits(chunk, levels, w, h, n - 1, x, y) {
            1int
        } else {
            0int
        }
    }
}

/// Number of segments that `levels` holds: one between each two consecutive
/// samples.
pub open spec fn segments(levels: Seq<i32>) -> int {
    if levels.len() == 0 {
        0
    } else {
        levels.len() - 1
    }
}

/// A count as a cell holds it: counts past the largest `u32` stay there.
pub open spec fn saturate(c: int) -> u32 {
    if c > u32::MAX {
        u32::MAX
    } else if c < 0 {
        0
    } else {
        c as u32
    }
}

/// Density of the pixel `(x, y)`: the number of segments through it.
pub open spec fn density(chunk: int, levels: Seq<i32>, w: int, h: int, x: int, y: int) -> u32 {
    saturate(hits(chunk, levels, w, h, x, y, segments(levels)))
}

/// The density grid of a chunk: `w * h` cells, one contiguous column of `h`
/// cells per pixel column.
pub open spec fn density_grid(chunk: int, levels: Seq<i32>, w: int, h: int) -> Seq<u32> {
    Seq::new((w * h) as nat, |k: int| density(chunk, levels, w, h, k / h, k % h))
}

/// The grid of `n` cells without any hit.
pub open spec fn blank_grid(n: int) -> Seq<u32> {
    Seq::new(n as nat, |k: int| 0u32)
}

/// A count never goes down as segments are added, and is never negative.
pub proof fn lemma_hits_bounds(
    chunk: int,
    levels: Seq<i32>,
    w: int,
    h: int,
    x: int,
    y: int,
    n: int,
)
    ensures
        0 <= hits(chunk, levels, w, h, x, y, n),
        n >= 0 ==> hits(chunk, levels, w, h, x, y, n) <= n,
    decreases n,
{
    if n > 0 {
        lemma_hits_bounds(chunk, levels, w, h, x, y, n - 1);
    }
}

/// A chunk with fewer than two samples has no segment, so its grid is blank.
pub proof fn lemma_no_segment_is_blank(chunk: int, levels: Seq<i32>, w: int, h: int)
    requires
        levels.len() < 2,
        0 <= w,
        0 <= h,
    ensures
        density_grid(chunk, levels, w, h) == blank_grid(w * h),
{
    assert(density_grid(chunk, levels, w, h) =~= blank_grid(w * h));
}

/// Cell `x * h + y` of a grid is the pixel `(x, y)`.
pub proof fn lemma_cell_of_pixel(x: int, y: int, w: int, h: int)
    requires
        0 <= x < w,
        0 <= y < h,
    ensures
        0 <= x * h + y < w * h,
        (x * h + y) / h == x,
        (x * h + y) % h == y,
{
    assert(0 <= x * h && x * h + h <= w * h) by (nonlinear_arith)
        requires
            0 <= x < w,
            0 < h,
    ;
    lemma_fundamental_div_mod_converse(x * h + y, h, x, y);
}

/// The pixel of cell `k` of a grid lies inside the grid.
pub proof fn lemma_pixel_of_cell(k: int, w: int, h: int)
    requires
        0 <= k < w * h,
        0 < h,
    ensures
        0 <= k / h < w,
        0 <= k % h < h,
        k == (k / h) * h + k % h,
{
    lemma_fundamental_div_mod(k, h);
    lemma_mod_bound(k, h);
    lemma_div_pos_is_pos(k, h);
    let q = k / h;
    assert(h * q == q * h) by (nonlinear_arith);
    assert(q < w) by (nonlinear_arith)
        requires
            q * h <= k,
            k < w * h,
            0 < h,
    ;
}

/// True when one call of a renderer takes `samples` samples and computes `w`
/// by `h` pixels: the accelerated renderer holds no more at once.
pub open spec fn fits_accelerated(samples: int, w: int, h: int) -> bool {
    samples <= RENDERER_MAX_TRACE_SIZE && w * h <= RENDERER_MAX_PIXELS
}

/// Turns samples into a grid of per-pixel hit counts.
///
/// A renderer takes the scaled amplitude of each sample, `levels`, and the
/// number of samples, `chunk_samples`, that the full width of the grid stands
/// for; a chunk at the end of a trace may hold fewer. Each two consecutive
/// samples give a vertical segment in the column of the first one, and every
/// cell counts the segments through it. All renderers return the same grid.
///
/// A call asks for no more than the accelerated renderer takes at once:
/// larger requests are cut into chunks by the caller.
pub trait Renderer {
    fn render(&self, chunk_samples: u32, levels: &[i32], w: u32, h: u32) -> (grid: Vec<u32>)
        requires
            chunk_samples > 0,
            fits_accelerated(levels@.len() as int, w as int, h as int),
        ensures
            grid@ == density_grid(chunk_samples as int, levels@, w as int, h as int),
    ;
}

/// A grid of `n` cells that are all zero.
pub fn zero_grid(n: usize) -> (grid: Vec<u32>)
    ensures
        grid@ == blank_grid(n as int),
{
    let mut grid: Vec<u32> = Vec::new();
    let mut k: usize = 0;
    while k < n
        invariant
            k <= n,
            grid@.len() == k,
            forall|j: int| 0 <= j < k ==> grid@[j] == 0u32,
        decreases n - k,
    {
        grid.push(0u32);
        k += 1;
    }
    assert(grid@ =~= blank_grid(n as int));
    grid
}

/// Column of the segment that starts at sample `i`.
fn column(i: usize, w: u32, chunk_samples: u32) -> (x: u32)
    requires
        chunk_samples > 0,
        w > 0,
    ensures
        x == column_of(i as int, w as int, chunk_samples as int),
        x < w,
{
    assert((i as int) * (w as int) <= 0xffff_ffff_ffff_ffff * 0xffff_ffff) by (nonlinear_arith)
        requires
            0 <= i <= 0xffff_ffff_ffff_ffff,
            0 <= w <= 0xffff_ffff,
    ;
    let wide: u128 = (i as u128) * (w as u128);
    let q: u128 = wide / (chunk_samples as u128);
    if q > (w - 1) as u128 {
        w - 1
    } else {
        q as u32
    }
}

/// True when the segment between two samples passes through row `y`.
fn covers(a: i32, b: i32, h: u32, y: u32) -> (c: bool)
    ensures
        c == (row_of(a, h as int) <= y <= row_of(b, h as int) || row_of(b, h as int) <= y
            <= row_of(a, h as int)),
{
    let half: i64 = (h / 2) as i64;
    let ya: i64 = half + a as i64;
    let yb: i64 = half + b as i64;
    let row: i64 = y as i64;
    (ya <= row && row <= yb) || (yb <= row && row <= ya)
}

/// Renderer that walks the samples once and draws each segment into its
/// column.
pub struct CpuRenderer {}

impl CpuRenderer {
    pub fn new() -> (r: Self) {
        Self {  }
    }

    /// The density grid of a chunk of any size that the machine holds.
    pub fn rasterize(&self, chunk_samples: u32, levels: &[i32], w: u32, h: u32) -> (grid: Vec<u32>)
        requires
            chunk_samples > 0,
            w * h <= usize::MAX,
        ensures
            grid@ == density_grid(chunk_samples as int, levels@, w as int, h as int),
    {
        let ghost c = chunk_samples as int;
        let ghost wi = w as int;
        let ghost hi = h as int;
        let ghost lv = levels@;
        let cells: usize = (w as usize) * (h as usize);
        let mut grid = zero_grid(cells);
        if levels.len() < 2 || w == 0 || h == 0 {
            proof {
                if levels.len() < 2 {
                    lemma_no_segment_is_blank(c, lv, wi, hi);
                } else {
                    assert(wi * hi == 0) by (nonlinear_arith)
                        requires
                            wi == 0 || hi == 0,
                    ;
                    assert(grid@ =~= density_grid(c, lv, wi, hi));
                }
            }
            return grid;
        }
        let count: usize = levels.len() - 1;
        let half: i64 = (h / 2) as i64;
        let mut i: usize = 0;
        while i < count
            invariant
                0 <= i <= count,
                count == lv.len() - 1,
                lv == levels@,
                c == chunk_samples,
                wi == w,
                hi == h,
                c > 0,
                wi > 0,
                hi > 0,
                half == hi / 2,
                cells == wi * hi,
                grid@.len() == cells,
                forall|k: int|
                    0 <= k < cells ==> #[trigger] grid@[k] == saturate(
                        hits(c, lv, wi, hi, k / hi, k % hi, i as int),
                    ),
            decreases count - i,
        {
            let x: u32 = column(i, w, chunk_samples);
            let y0: i64 = half + levels[i] as i64;
            let y1: i64 = half + levels[i + 1] as i64;
            let lo: i64 = if y0 < y1 {
                y0
            } else {
                y1
            };
            let hi_row: i64 = if y0 < y1 {
                y1
            } else {
                y0
            };
            let first: i64 = if lo < 0 {
                0
            } else {
                lo
            };
            let last: i64 = if hi_row > (h as i64) - 1 {
                (h as i64) - 1
            } else {
                hi_row
            };
            let ghost before = grid@;
            let mut y: i64 = first;
            while y <= last
                invariant
                    0 <= first <= y,
                    last < hi,
                    y <= last + 1 || first > last,
                    0 <= i < count,
                    count == lv.len() - 1,
                    c > 0,
                    wi > 0,
                    hi > 0,
                    wi == w,
                    hi == h,
                    x < wi,
                    cells == wi * hi,
                    grid@.len() == cells,
                    x == column_of(i as int, wi, c),
                    lo == if row_of(lv[i as int], hi) < row_of(lv[i + 1], hi) {
                        row_of(lv[i as int], hi)
                    } else {
                        row_of(lv[i + 1], hi)
                    },
                    hi_row == if row_of(lv[i as int], hi) < row_of(lv[i + 1], hi) {
                        row_of(lv[i + 1], hi)
                    } else {
                        row_of(lv[i as int], hi)
                    },
                    first == if lo < 0 {
                        0
                    } else {
                        lo as int
                    },
                    last == if hi_row > hi - 1 {
                        hi - 1
                    } else {
                        hi_row as int
                    },
                    forall|k: int|
                        0 <= k < cells ==> before[k] == saturate(
                            hits(c, lv, wi, hi, k / hi, k % hi, i as int),
                        ),
                    forall|k: int|
                        0 <= k < cells ==> #[trigger] grid@[k] == if k / hi == x && first <= k % hi
                            < y {
                            saturate(hits(c, lv, wi, hi, k / hi, k % hi, i + 1))
                        } else {
                            before[k]
                        },
                decreases last + 1 - y,
            {
                proof {
                    lemma_cell_of_pixel(x as int, y as int, wi, hi);
                }
                let cell: usize = (x as usize) * (h as usize) + (y as usize);
                let ghost prev = grid@;
                let value: u32 = grid[cell].saturating_add(1);
                grid.set(cell, value);
                proof {
                    lemma_hits_bounds(c, lv, wi, hi, x as int, y as int, i as int);
                    assert(segment_hits(c, lv, wi, hi, i as int, x as int, y as int));
                    assert forall|k: int| 0 <= k < cells implies #[trigger] grid@[k] == if k / hi
                        == x && first <= k % hi < y + 1 {
                        saturate(hits(c, lv, wi, hi, k / hi, k % hi, i + 1))
                    } else {
                        before[k]
                    } by {
                        if k == cell {
                        } else {
                            assert(grid@[k] == prev[k]);
                            if k / hi == x && k % hi == y {
                                lemma_pixel_of_cell(k, wi, hi);
                            }
                        }
                    }
                }
                y += 1;
            }
            proof {
                assert forall|k: int| 0 <= k < cells implies #[trigger] grid@[k] == saturate(
                    hits(c, lv, wi, hi, k / hi, k % hi, i + 1),
                ) by {
                    lemma_pixel_of_cell(k, wi, hi);
                    if k / hi == x && first <= k % hi <= last {
                    } else {
                        assert(!segment_hits(c, lv, wi, hi, i as int, k / hi, k % hi));
                    }
                }
            }
            i += 1;
        }
        assert(grid@ =~= density_grid(c, lv, wi, hi));
        grid
    }
}

impl Renderer for CpuRenderer {
    fn render(&self, chunk_samples: u32, levels: &[i32], w: u32, h: u32) -> (grid: Vec<u32>) {
        self.rasterize(chunk_samples, levels, w, h)
    }
}

/// Renderer that computes every pixel on its own, as the lanes of a compute
/// device do: each cell counts the segments through it.
///
pub struct LaneRenderer {}

impl LaneRenderer {
    pub fn new() -> (r: Self) {
        Self {  }
    }

    /// Count of the segments through the pixel `(x, y)`.
    fn lane(chunk_samples: u32, levels: &[i32], w: u32, h: u32, x: u32, y: u32) -> (d: u32)
        requires
            chunk_samples > 0,
            w > 0,
        ensures
            d == density(chunk_samples as int, levels@, w as int, h as int, x as int, y as int),
    {
        if levels.len() < 2 {
            return 0;
        }
        let count: usize = levels.len() - 1;
        let mut d: u32 = 0;
        let mut i: usize = 0;
        while i < count
            invariant
                0 <= i <= count,
                count == levels@.len() - 1,
                chunk_samples > 0,
                w > 0,
                d == saturate(
                    hits(
                        chunk_samples as int,
                        levels@,
                        w as int,
                        h as int,
                        x as int,
                        y as int,
                        i as int,
                    ),
                ),
            decreases count - i,
        {
            proof {
                lemma_hits_bounds(
                    chunk_samples as int,
                    levels@,
                    w as int,
                    h as int,
                    x as int,
                    y as int,
                    i as int,
                );
            }
            if column(i, w, chunk_samples) == x && covers(levels[i], levels[i + 1], h, y) {
                d = d.saturating_add(1);
            }
            i += 1;
        }
        d
    }
}

impl Renderer for LaneRenderer {
    fn render(&self, chunk_samples: u32, levels: &[i32], w: u32, h: u32) -> (grid: Vec<u32>) {
        let cells: usize = (w as usize) * (h as usize);
        let mut grid: Vec<u32> = Vec::new();
        let mut k: usize = 0;
        while k < cells
            invariant
                k <= cells,
                cells == w * h,
                chunk_samples > 0,
                grid@.len() == k,
                forall|j: int|
                    0 <= j < k ==> #[trigger] grid@[j] == density(
                        chunk_samples as int,
                        levels@,
                        w as int,
                        h as int,
                        j / (h as int),
                        j % (h as int),
                    ),
            decreases cells - k,
        {
            proof {
                assert(w > 0 && h > 0) by (nonlinear_arith)
                    requires
                        k < w * h,
                        k >= 0,
                ;
                lemma_pixel_of_cell(k as int, w as int, h as int);
            }
            let x: u32 = (k / (h as usize)) as u32;
            let y: u32 = (k % (h as usize)) as u32;
            let d = Self::lane(chunk_samples, levels, w, h, x, y);
            grid.push(d);
            k += 1;
        }
        assert(grid@ =~= density_grid(chunk_samples as int, levels@, w as int, h as int));
        grid
    }
}

/// What the accelerated renderer is told for one call.
#[derive(Debug, Clone, Copy, PartialEq, Eq, Structural)]
pub struct Dispatch {
    /// Number of samples that the full width of the grid stands for.
    pub chunk_samples: u32,
    /// Number of samples that are handed over.
    pub trace_samples: u32,
    /// Number of pixels of the grid.
    pub pixel_count: u32,
    /// Number of workgroups that compute the grid.
    pub workgroup_count: u32,
    /// Number of bytes of the samples.
    pub input_bytes: u64,
    /// Number of bytes of the grid.
    pub output_bytes: u64,
}

/// Plans one call of the accelerated renderer: the sizes of what is copied
/// to and from the device, and the number of workgroups, each of which
/// computes 64 pixels. `None` where the request is more than the renderer
/// takes at once.
pub fn plan_dispatch(chunk_samples: u32, samples: usize, w: u32, h: u32) -> (r: Option<Dispatch>)
    ensures
        r.is_some() == fits_accelerated(samples as int, w as int, h as int),
        r.is_some() ==> {
            let d = r.unwrap();
            &&& d.chunk_samples == chunk_samples
            &&& d.trace_samples == samples
            &&& d.pixel_count == w * h
            &&& d.workgroup_count == (w * h + RENDERER_WORKGROUP_SIZE - 1) / (
            RENDERER_WORKGROUP_SIZE as int)
            &&& d.input_bytes == samples * 4
            &&& d.output_bytes == w * h * 4
        },
{
    if samples > RENDERER_MAX_TRACE_SIZE {
        return None;
    }
    assert(0 <= (w as int) * (h as int) <= 0xffff_ffff * 0xffff_ffff) by (nonlinear_arith)
        requires
            0 <= w <= 0xffff_ffff,
            0 <= h <= 0xffff_ffff,
    ;
    let pixels: u64 = (w as u64) * (h as u64);
    if pixels > RENDERER_MAX_PIXELS as u64 {
        return None;
    }
    Some(
        Dispatch {
            chunk_samples,
            trace_samples: samples as u32,
            pixel_count: pixels as u32,
            workgroup_count: ((pixels + 63) / 64) as u32,
            input_bytes: (samples as u64) * 4,
            output_bytes: pixels * 4,
        },
    )
}

/// Kind of a compute device.
#[derive(Debug, Clone, Copy, PartialEq, Eq, Structural)]
pub enum DeviceKind {
    Other,
    IntegratedGpu,
    DiscreteGpu,
    VirtualGpu,
    Cpu,
}

impl DeviceKind {
    /// Rank of the kind among the devices to render on: a discrete GPU is
    /// the best, then an integrated one, a CPU, a virtual GPU, and the rest.
    pub open spec fn spec_rank(self) -> int {
        match self {
            DeviceKind::DiscreteGpu => 0,
            DeviceKind::IntegratedGpu => 1,
            DeviceKind::Cpu => 2,
            DeviceKind::VirtualGpu => 3,
            DeviceKind::Other => 4,
        }
    }

    pub fn rank(self) -> (r: u8)
        ensures
            r == self.spec_rank(),
    {
        match self {
            DeviceKind::DiscreteGpu => 0,
            DeviceKind::IntegratedGpu => 1,
            DeviceKind::Cpu => 2,
            DeviceKind::VirtualGpu => 3,
            DeviceKind::Other => 4,
        }
    }
}

/// Picks the device to render on: the first one of the best kind. `None`
/// where there is no device.
pub fn pick_device(kinds: &Vec<DeviceKind>) -> (r: Option<usize>)
    ensures
        r.is_some() == (kinds@.len() > 0),
        r.is_some() ==> {
            &&& r.unwrap() < kinds@.len()
            &&& forall|j: int|
                0 <= j < kinds@.len() ==> kinds@[r.unwrap() as int].spec_rank() <= (
                #[trigger] kinds@[j]).spec_rank()
            &&& forall|j: int|
                0 <= j < r.unwrap() ==> kinds@[r.unwrap() as int].spec_rank() < (
                #[trigger] kinds@[j]).spec_rank()
        },
{
    if kinds.len() == 0 {
        return None;
    }
    let mut best: usize = 0;
    let mut i: usize = 1;
    while i < kinds.len()
        invariant
            1 <= i <= kinds@.len(),
            best < i,
            forall|j: int|
                0 <= j < i ==> kinds@[best as int].spec_rank() <= (#[trigger] kinds@[j]).spec_rank(),
            forall|j: int|
                0 <= j < best ==> kinds@[best as int].spec_rank() < (
                #[trigger] kinds@[j]).spec_rank(),
        decreases kinds@.len() - i,
    {
        if kinds[i].rank() < kinds[best].rank() {
            best = i;
        }
        i += 1;
    }
    Some(best)
}

/// Any two renderers agree: what one returns for a chunk, cell for cell, is
/// what the other returns for it.
pub proof fn lemma_renderers_agree<A: Renderer, B: Renderer>(
    first: &A,
    second: &B,
    chunk_samples: u32,
    levels: &[i32],
    w: u32,
    h: u32,
    a: Vec<u32>,
    b: Vec<u32>,
)
    requires
        call_ensures(A::render, (first, chunk_samples, levels, w, h), a),
        call_ensures(B::render, (second, chunk_samples, levels, w, h), b),
    ensures
        a@ == b@,
        a@ == density_grid(chunk_samples as int, levels@, w as int, h as int),
{
}

} // verus!
