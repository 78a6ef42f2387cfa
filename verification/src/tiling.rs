use crate::renderer::{
    blank_grid,
    density_grid,
    zero_grid,
    Renderer,
    RENDERER_MAX_PIXELS,
    RENDERER_MAX_TRACE_SIZE,
};
use crate::util::{Fixed, FixedVec2, FIXED_ONE};
use vstd::arithmetic::div_mod::{lemma_fundamental_div_mod, lemma_mod_bound};
use vstd::prelude::*;

verus! {

/// Rendering state of a cache entry.
#[derive(Debug, Clone, Copy, PartialEq, Eq, Structural)]
pub enum TileStatus {
    /// The tile must be rendered.
    NotRendered,
    /// A renderer is currently generating the tile.
    Rendering,
    /// The tile has been rendered.
    Rendered,
}

/// Width and height of a tile, in pixels.
#[derive(Debug, Clone, Copy, PartialEq, Eq, Hash, Structural)]
pub struct TileSize {
    pub w: u32,
    pub h: u32,
}

impl TileSize {
    pub fn new(w: u32, h: u32) -> (size: Self)
        ensures
            size.w == w,
            size.h == h,
    {
        Self { w, h }
    }

    /// Number of pixels of the tile.
    pub open spec fn spec_area(&self) -> int {
        self.w * self.h
    }

    /// Width multiplied by height, for a size whose area fits in 32 bits.
    pub fn area(&self) -> (a: u32)
        requires
            self.spec_area() <= u32::MAX,
        ensures
            a == self.spec_area(),
    {
        self.w * self.h
    }

    /// Width multiplied by height, or `None` when it does not fit in 32 bits.
    pub fn checked_area(&self) -> (a: Option<u32>)
        ensures
            self.spec_area() <= u32::MAX ==> a == Some(self.spec_area() as u32),
            self.spec_area() > u32::MAX ==> a.is_none(),
    {
        self.w.checked_mul(self.h)
    }
}

/// Identity of a tile. Two cache entries are the same tile exactly when all
/// of these fields are equal.
#[derive(Debug, Clone, Copy, PartialEq, Eq, Hash, Structural)]
pub struct TileProperties {
    /// Trace that the tile belongs to, where several share one cache.
    pub owner_id: u32,
    /// Rendering scale. For the x-axis, the number of samples of each pixel
    /// column.
    pub scale: FixedVec2,
    /// Vertical offset, added to the samples before they are scaled.
    pub offset: Fixed,
    /// Index of the tile column.
    pub index: i32,
    /// Width and height of the tile.
    pub size: TileSize,
}

/// First sample of the tile column `index`, for tiles of `w` columns at a
/// scale of `scale_x` raw bits: `index * w * scale` rounded down.
pub open spec fn tile_start(index: int, w: int, scale_x: int) -> int {
    (index * w * scale_x) / (FIXED_ONE as int)
}

/// One past the last sample of the tile column `index`: the first sample of
/// the next one.
pub open spec fn tile_end(index: int, w: int, scale_x: int) -> int {
    tile_start(index + 1, w, scale_x)
}

/// Number of samples that the full width of a tile stands for: `w * scale`
/// rounded down.
pub open spec fn chunk_samples_of(w: int, scale_x: int) -> int {
    (w * scale_x) / (FIXED_ONE as int)
}

/// `n` divided by 2^24 and rounded down.
fn floor_one(n: i128) -> (q: i128)
    ensures
        q == (n as int) / (FIXED_ONE as int),
{
    let q: i128 = n / 0x100_0000i128;
    let r: i128 = n % 0x100_0000i128;
    if r < 0 {
        q - 1
    } else {
        q
    }
}

impl TileProperties {
    /// A tile can be rendered when its scale is at least one sample per pixel
    /// column, it has a column, and its grid and its samples fit in what every
    /// renderer takes at once.
    pub open spec fn valid(&self) -> bool {
        &&& self.scale.x@ >= FIXED_ONE
        &&& self.size.w >= 1
        &&& self.size.spec_area() <= RENDERER_MAX_PIXELS
        &&& chunk_samples_of(self.size.w as int, self.scale.x@) + 1 <= RENDERER_MAX_TRACE_SIZE
    }

    /// True when the tile can be rendered.
    pub fn is_valid(&self) -> (b: bool)
        ensures
            b == self.valid(),
    {
        if self.scale.x.bits < FIXED_ONE || self.size.w < 1 {
            return false;
        }
        assert(0 <= (self.size.w as int) * (self.size.h as int) <= 0xffff_ffff * 0xffff_ffff)
            by (nonlinear_arith)
            requires
                0 <= self.size.w <= 0xffff_ffff,
                0 <= self.size.h <= 0xffff_ffff,
        ;
        let area: u64 = (self.size.w as u64) * (self.size.h as u64);
        if area > RENDERER_MAX_PIXELS as u64 {
            return false;
        }
        assert((self.size.w as int) * self.scale.x@ <= 0xffff_ffff * 0x7fff_ffff_ffff_ffff)
            by (nonlinear_arith)
            requires
                0 <= self.size.w <= 0xffff_ffff,
                0 <= self.scale.x@ <= 0x7fff_ffff_ffff_ffff,
        ;
        assert(0 <= (self.size.w as int) * self.scale.x@) by (nonlinear_arith)
            requires
                0 <= self.size.w,
                0 <= self.scale.x@,
        ;
        let chunk: i128 = floor_one((self.size.w as i128) * (self.scale.x.bits as i128));
        chunk + 1 <= RENDERER_MAX_TRACE_SIZE as i128
    }

    /// The samples that the tile covers: from `tile_start` up to, and without,
    /// `tile_end`.
    pub fn sample_range(&self) -> (r: (i128, i128))
        ensures
            r.0 == tile_start(self.index as int, self.size.w as int, self.scale.x@),
            r.1 == tile_end(self.index as int, self.size.w as int, self.scale.x@),
    {
        let i: i128 = self.index as i128;
        let w: i128 = self.size.w as i128;
        let s: i128 = self.scale.x.bits as i128;
        assert(-0x8000_0000 * 0xffff_ffff <= i * w <= 0x8000_0000 * 0xffff_ffff
            && -0x8000_0000 * 0xffff_ffff <= (i + 1) * w <= 0x8000_0000 * 0xffff_ffff)
            by (nonlinear_arith)
            requires
                -0x8000_0000 <= i <= 0x7fff_ffff,
                0 <= w <= 0xffff_ffff,
        ;
        let a: i128 = i * w;
        let b: i128 = (i + 1) * w;
        assert(-0x8000_0000 * 0xffff_ffff * 0x8000_0000_0000_0000 <= a * s <= 0x8000_0000
            * 0xffff_ffff * 0x8000_0000_0000_0000 && -0x8000_0000 * 0xffff_ffff
            * 0x8000_0000_0000_0000 <= b * s <= 0x8000_0000 * 0xffff_ffff * 0x8000_0000_0000_0000)
            by (nonlinear_arith)
            requires
                -0x8000_0000 * 0xffff_ffff <= a <= 0x8000_0000 * 0xffff_ffff,
                -0x8000_0000 * 0xffff_ffff <= b <= 0x8000_0000 * 0xffff_ffff,
                -0x8000_0000_0000_0000 <= s <= 0x7fff_ffff_ffff_ffff,
        ;
        (floor_one(a * s), floor_one(b * s))
    }
}

/// Mathematical value of a [`Tile`].
pub struct TileView {
    pub status: TileStatus,
    pub properties: TileProperties,
    pub data: Seq<u32>,
}

/// A cache entry: an identity, its rendering state, and the density grid once
/// it has been rendered.
#[derive(Debug)]
pub struct Tile {
    pub status: TileStatus,
    pub properties: TileProperties,
    pub data: Vec<u32>,
}

impl View for Tile {
    type V = TileView;

    open spec fn view(&self) -> TileView {
        TileView { status: self.status, properties: self.properties, data: self.data@ }
    }
}

/// The entry that a request for `properties` creates: not rendered, without
/// data.
pub open spec fn fresh_tile(properties: TileProperties) -> TileView {
    TileView { status: TileStatus::NotRendered, properties, data: Seq::empty() }
}

/// The entry that holds the finished grid `data` of `properties`.
pub open spec fn rendered_tile(properties: TileProperties, data: Seq<u32>) -> TileView {
    TileView { status: TileStatus::Rendered, properties, data }
}

/// The entry `t` once a worker has taken it.
pub open spec fn taken_tile(t: TileView) -> TileView {
    TileView { status: TileStatus::Rendering, properties: t.properties, data: t.data }
}

/// An entry has an identity that can be rendered; it holds a full grid once
/// it is rendered, and nothing before.
pub open spec fn tile_wf(t: TileView) -> bool {
    &&& t.properties.valid()
    &&& if t.status == TileStatus::Rendered {
        t.data.len() == t.properties.size.spec_area()
    } else {
        t.data.len() == 0
    }
}

impl Tile {
    pub fn new(properties: TileProperties) -> (tile: Self)
        ensures
            tile@ == fresh_tile(properties),
    {
        Self { status: TileStatus::NotRendered, properties, data: Vec::new() }
    }

    /// Density of the pixel in column `x` and row `y` of a rendered tile.
    pub fn density_at(&self, x: u32, y: u32) -> (d: u32)
        requires
            tile_wf(self@),
            self.status == TileStatus::Rendered,
            x < self.properties.size.w,
            y < self.properties.size.h,
        ensures
            d == self.data@[x * self.properties.size.h + y],
    {
        let h: usize = self.properties.size.h as usize;
        let col: usize = x as usize;
        let row: usize = y as usize;
        let n: usize = self.data.len();
        proof {
            let w = self.properties.size.w as int;
            assert(col * h + row < w * h && 0 <= col * h) by (nonlinear_arith)
                requires
                    0 <= col < w,
                    0 <= row < h,
            ;
            assert(n == w * h);
        }
        self.data[col * h + row]
    }
}

impl Tile {
    /// The densities of a rendered tile row by row, as an image holds its
    /// pixels: cell `k` of the result is the pixel of column `k % w` and row
    /// `k / w`, which the tile holds at `(k % w) * h + k / w`.
    pub fn to_row_major(&self) -> (rows: Vec<u32>)
        requires
            tile_wf(self@),
            self.status == TileStatus::Rendered,
        ensures
            rows@.len() == self.properties.size.spec_area(),
            forall|k: int|
                0 <= k < rows@.len() ==> #[trigger] rows@[k] == self.data@[(k % (
                self.properties.size.w as int)) * self.properties.size.h + k / (
                self.properties.size.w as int)],
    {
        let w: usize = self.properties.size.w as usize;
        let h: usize = self.properties.size.h as usize;
        let n: usize = self.data.len();
        let mut rows: Vec<u32> = Vec::new();
        let mut y: usize = 0;
        while y < h
            invariant
                y <= h,
                w == self.properties.size.w,
                h == self.properties.size.h,
                n == self.data@.len(),
                n == w * h,
                rows@.len() == y * w,
                forall|k: int|
                    0 <= k < rows@.len() ==> #[trigger] rows@[k] == self.data@[(k % (w as int)) * h
                        + k / (w as int)],
            decreases h - y,
        {
            let mut x: usize = 0;
            while x < w
                invariant
                    x <= w,
                    y < h,
                    w == self.properties.size.w,
                    h == self.properties.size.h,
                    n == self.data@.len(),
                    n == w * h,
                    rows@.len() == y * w + x,
                    forall|k: int|
                        0 <= k < rows@.len() ==> #[trigger] rows@[k] == self.data@[(k % (w as int))
                            * h + k / (w as int)],
                decreases w - x,
            {
                proof {
                    crate::renderer::lemma_cell_of_pixel(x as int, y as int, w as int, h as int);
                    crate::renderer::lemma_cell_of_pixel(y as int, x as int, h as int, w as int);
                }
                rows.push(self.data[x * h + y]);
                x += 1;
            }
            proof {
                assert((y + 1) * w == y * w + w) by (nonlinear_arith);
            }
            y += 1;
        }
        proof {
            assert(h * w == w * h) by (nonlinear_arith);
        }
        rows
    }
}

impl Clone for Tile {
    fn clone(&self) -> (tile: Self)
        ensures
            tile@ == self@,
    {
        Self { status: self.status, properties: self.properties, data: self.data.clone() }
    }
}

/// Index of the first entry of `s` that meets `pred`, or the length of `s`
/// where none does.
pub open spec fn first_index(s: Seq<TileView>, pred: spec_fn(TileView) -> bool) -> int
    decreases s.len(),
{
    if s.len() == 0 {
        0
    } else {
        let k = first_index(s.drop_last(), pred);
        if k < s.len() - 1 {
            k
        } else if pred(s.last()) {
            s.len() - 1
        } else {
            s.len() as int
        }
    }
}

/// `first_index` is the one position before which nothing meets `pred` and at
/// which, inside the sequence, `pred` holds.
pub proof fn lemma_first_index(s: Seq<TileView>, pred: spec_fn(TileView) -> bool, i: int)
    requires
        0 <= i <= s.len(),
        forall|j: int| 0 <= j < i ==> !pred(#[trigger] s[j]),
        i < s.len() ==> pred(s[i]),
    ensures
        first_index(s, pred) == i,
    decreases s.len(),
{
    if s.len() > 0 {
        let front = s.drop_last();
        if i < s.len() - 1 {
            assert(front[i] == s[i]);
            assert forall|j: int| 0 <= j < i implies !pred(#[trigger] front[j]) by {
                assert(front[j] == s[j]);
            }
            lemma_first_index(front, pred, i);
        } else {
            assert forall|j: int| 0 <= j < s.len() - 1 implies !pred(#[trigger] front[j]) by {
                assert(front[j] == s[j]);
            }
            lemma_first_index(front, pred, s.len() - 1);
        }
    }
}

/// What `first_index` returns: a position up to the length, with no match
/// before it and a match at it.
pub proof fn lemma_first_index_is_first(s: Seq<TileView>, pred: spec_fn(TileView) -> bool)
    ensures
        0 <= first_index(s, pred) <= s.len(),
        forall|j: int| 0 <= j < first_index(s, pred) ==> !pred(#[trigger] s[j]),
        first_index(s, pred) < s.len() ==> pred(s[first_index(s, pred)]),
    decreases s.len(),
{
    if s.len() > 0 {
        let front = s.drop_last();
        lemma_first_index_is_first(front, pred);
        assert forall|j: int| 0 <= j < first_index(s, pred) implies !pred(#[trigger] s[j]) by {
            if j < s.len() - 1 {
                assert(front[j] == s[j]);
            }
        }
        let k = first_index(front, pred);
        if k < s.len() - 1 {
            assert(front[k] == s[k]);
        }
    }
}

/// The entries with the identity `p`.
pub open spec fn has_properties(p: TileProperties) -> spec_fn(TileView) -> bool {
    |t: TileView| t.properties == p
}

/// The entries that wait for a worker.
pub open spec fn is_not_rendered() -> spec_fn(TileView) -> bool {
    |t: TileView| t.status == TileStatus::NotRendered
}

/// True when some entry of `s` is not rendered yet.
pub open spec fn any_pending(s: Seq<TileView>) -> bool {
    exists|i: int| 0 <= i < s.len() && (#[trigger] s[i]).status != TileStatus::Rendered
}

/// No identity occurs twice, and every entry is well formed.
pub open spec fn tiles_wf(s: Seq<TileView>) -> bool {
    &&& forall|i: int, j: int|
        0 <= i < j < s.len() ==> (#[trigger] s[i]).properties != (#[trigger] s[j]).properties
    &&& forall|i: int| 0 <= i < s.len() ==> tile_wf(#[trigger] s[i])
}

/// Number of entries of `s` with the identity `p`.
pub open spec fn count_of(s: Seq<TileView>, p: TileProperties) -> nat {
    s.filter(has_properties(p)).len()
}

/// Position of the entry of `s` with the identity `p`, or the length of `s`
/// where there is none.
pub open spec fn find(s: Seq<TileView>, p: TileProperties) -> int {
    first_index(s, has_properties(p))
}

/// The entries after a lookup of `p`: one more, not rendered, where `p` was
/// missing and the lookup asked for it; the same entries otherwise.
pub open spec fn after_get(s: Seq<TileView>, p: TileProperties, request: bool) -> Seq<TileView> {
    if find(s, p) == s.len() && request {
        s.push(fresh_tile(p))
    } else {
        s
    }
}

/// What a lookup of `p` returns.
pub open spec fn got(s: Seq<TileView>, p: TileProperties, request: bool) -> Option<TileView> {
    if find(s, p) < s.len() {
        Some(s[find(s, p)])
    } else if request {
        Some(fresh_tile(p))
    } else {
        None
    }
}

/// Position of the first entry of `s` that waits for a worker, or the length
/// of `s` where none does.
pub open spec fn job_index(s: Seq<TileView>) -> int {
    first_index(s, is_not_rendered())
}

/// The identity that the next worker is given.
pub open spec fn next_job(s: Seq<TileView>) -> Option<TileProperties> {
    if job_index(s) < s.len() {
        Some(s[job_index(s)].properties)
    } else {
        None
    }
}

/// The entries after a worker has taken the next job.
pub open spec fn after_take(s: Seq<TileView>) -> Seq<TileView> {
    if job_index(s) < s.len() {
        s.update(job_index(s), taken_tile(s[job_index(s)]))
    } else {
        s
    }
}

/// The entries after the grid `data` of `p` has been written back.
pub open spec fn after_store(s: Seq<TileView>, p: TileProperties, data: Seq<u32>) -> Seq<
    TileView,
> {
    if find(s, p) < s.len() {
        s.update(find(s, p), rendered_tile(p, data))
    } else {
        s.push(rendered_tile(p, data))
    }
}

/// Mathematical value of the result of a lookup.
pub open spec fn tile_view_of(r: Option<Tile>) -> Option<TileView> {
    match r {
        Some(t) => Some(t@),
        None => None,
    }
}

/// Which entries an eviction keeps: those rendered for the current view of
/// one owner, and all those of other owners.
#[derive(Debug, Clone, Copy, PartialEq, Eq, Structural)]
pub struct Retention {
    /// Owner whose stale tiles are dropped.
    pub owner_id: u32,
    /// Current scale of that owner's camera.
    pub scale: FixedVec2,
    /// Current vertical shift of that owner's camera.
    pub offset: Fixed,
}

impl Retention {
    pub fn new(owner_id: u32, scale: FixedVec2, offset: Fixed) -> (r: Self)
        ensures
            r.owner_id == owner_id,
            r.scale == scale,
            r.offset == offset,
    {
        Self { owner_id, scale, offset }
    }

    /// True for the identities that stay in the cache.
    pub open spec fn spec_keeps(&self, p: TileProperties) -> bool {
        (p.scale == self.scale && p.offset == self.offset) || p.owner_id != self.owner_id
    }

    /// The entries that stay in the cache.
    pub open spec fn keeps_tile(&self) -> spec_fn(TileView) -> bool {
        |t: TileView| self.spec_keeps(t.properties)
    }

    /// True when a tile with the identity `p` stays in the cache.
    pub fn keeps(&self, p: &TileProperties) -> (b: bool)
        ensures
            b == self.spec_keeps(*p),
    {
        (p.scale == self.scale && p.offset == self.offset) || p.owner_id != self.owner_id
    }
}

/// A library of tiles with their rendering status and result, in the order in
/// which they were requested.
///
/// It is shared between a consumer, which asks for tiles and uses them, and
/// the workers that render them.
pub struct Tiling {
    tiles: Vec<Tile>,
}

impl View for Tiling {
    type V = Seq<TileView>;

    closed spec fn view(&self) -> Seq<TileView> {
        self.tiles@.map_values(|t: Tile| t@)
    }
}

impl Tiling {
    /// Invariant of the cache: see [`tiles_wf`].
    pub open spec fn wf(&self) -> bool {
        tiles_wf(self@)
    }

    pub fn new() -> (tiling: Self)
        ensures
            tiling@ == Seq::<TileView>::empty(),
            tiling.wf(),
    {
        let tiling = Self { tiles: Vec::new() };
        assert(tiling@ =~= Seq::<TileView>::empty());
        tiling
    }

    /// Number of entries.
    pub fn len(&self) -> (n: usize)
        ensures
            n == self@.len(),
    {
        self.tiles.len()
    }

    /// Identity of the entry at position `i`.
    pub fn properties_at(&self, i: usize) -> (p: TileProperties)
        requires
            i < self@.len(),
        ensures
            p == self@[i as int].properties,
    {
        self.tiles[i].properties
    }

    /// Status of the entry at position `i`.
    pub fn status_at(&self, i: usize) -> (s: TileStatus)
        requires
            i < self@.len(),
        ensures
            s == self@[i as int].status,
    {
        self.tiles[i].status
    }

    /// Position of the entry with the identity `properties`, or the number of
    /// entries where there is none.
    fn position(&self, properties: TileProperties) -> (k: usize)
        ensures
            k == first_index(self@, has_properties(properties)),
            k <= self@.len(),
    {
        let mut i: usize = 0;
        while i < self.tiles.len()
            invariant
                0 <= i <= self.tiles.len(),
                forall|j: int| 0 <= j < i ==> !has_properties(properties)(#[trigger] self@[j]),
            decreases self.tiles.len() - i,
        {
            if self.tiles[i].properties == properties {
                proof {
                    lemma_first_index(self@, has_properties(properties), i as int);
                }
                return i;
            }
            i += 1;
        }
        proof {
            lemma_first_index(self@, has_properties(properties), i as int);
        }
        i
    }

    /// True when the cache holds an entry with the identity `properties`.
    pub fn contains(&self, properties: TileProperties) -> (b: bool)
        ensures
            b == (find(self@, properties) < self@.len()),
    {
        self.position(properties) < self.tiles.len()
    }

    /// Returns a copy of the entry with the identity `properties`. Where there
    /// is none and `request` is set, a new entry that is not rendered is added
    /// at the end and returned. A call without `request` leaves the cache as it
    /// was.
    pub fn get(&mut self, properties: TileProperties, request: bool) -> (r: Option<Tile>)
        requires
            old(self).wf(),
            request ==> properties.valid(),
        ensures
            final(self).wf(),
            final(self)@ == after_get(old(self)@, properties, request),
            tile_view_of(r) == got(old(self)@, properties, request),
            request ==> r.is_some(),
            !request ==> final(self)@ == old(self)@,
    {
        let k = self.position(properties);
        if k < self.tiles.len() {
            return Some(self.tiles[k].clone());
        }
        if request {
            let tile = Tile::new(properties);
            let copy = tile.clone();
            proof {
                lemma_first_index_is_first(self@, has_properties(properties));
            }
            self.tiles.push(tile);
            assert(self@ =~= old(self)@.push(fresh_tile(properties)));
            Some(copy)
        } else {
            None
        }
    }

    /// True when at least one entry is not rendered.
    pub fn has_pending(&self) -> (b: bool)
        ensures
            b == any_pending(self@),
    {
        let mut i: usize = 0;
        while i < self.tiles.len()
            invariant
                0 <= i <= self.tiles.len(),
                forall|j: int| 0 <= j < i ==> (#[trigger] self@[j]).status == TileStatus::Rendered,
            decreases self.tiles.len() - i,
        {
            if self.tiles[i].status != TileStatus::Rendered {
                assert(self@[i as int].status != TileStatus::Rendered);
                return true;
            }
            i += 1;
        }
        false
    }

    /// Finds the first entry that waits for a worker, marks it as being
    /// rendered, and returns its identity. Returns `None`, and changes nothing,
    /// where no entry waits.
    pub fn take_job(&mut self) -> (r: Option<TileProperties>)
        requires
            old(self).wf(),
        ensures
            final(self).wf(),
            r == next_job(old(self)@),
            final(self)@ == after_take(old(self)@),
    {
        let mut i: usize = 0;
        while i < self.tiles.len()
            invariant
                0 <= i <= self.tiles.len(),
                *self == *old(self),
                self.wf(),
                forall|j: int| 0 <= j < i ==> !is_not_rendered()(#[trigger] self@[j]),
            decreases self.tiles.len() - i,
        {
            if self.tiles[i].status == TileStatus::NotRendered {
                proof {
                    lemma_first_index(self@, is_not_rendered(), i as int);
                }
                let properties = self.tiles[i].properties;
                self.tiles[i].status = TileStatus::Rendering;
                assert(self@ =~= old(self)@.update(i as int, taken_tile(old(self)@[i as int])));
                assert(tile_wf(old(self)@[i as int]));
                return Some(properties);
            }
            i += 1;
        }
        proof {
            lemma_first_index(self@, is_not_rendered(), i as int);
        }
        None
    }

    /// Writes the grid `data` of the tile `properties` back: the entry with
    /// that identity takes the grid and becomes rendered. Where the entry has
    /// been removed in the meantime, a rendered entry is added at the end.
    pub fn store_result(&mut self, properties: TileProperties, data: Vec<u32>)
        requires
            old(self).wf(),
            properties.valid(),
            data@.len() == properties.size.spec_area(),
        ensures
            final(self).wf(),
            final(self)@ == after_store(old(self)@, properties, data@),
    {
        let k = self.position(properties);
        proof {
            lemma_first_index_is_first(self@, has_properties(properties));
        }
        if k < self.tiles.len() {
            self.tiles[k].data = data;
            self.tiles[k].status = TileStatus::Rendered;
            assert(self@ =~= old(self)@.update(k as int, rendered_tile(properties, data@)));
        } else {
            let ghost grid = data@;
            self.tiles.push(Tile { status: TileStatus::Rendered, properties, data });
            assert(self@ =~= old(self)@.push(rendered_tile(properties, grid)));
        }
    }
    /// Removes the entries that `keep` does not keep. The others stay, in
    /// their order.
    pub fn retain(&mut self, keep: &Retention)
        requires
            old(self).wf(),
        ensures
            final(self).wf(),
            final(self)@ == old(self)@.filter(keep.keeps_tile()),
    {
        let ghost orig = self@;
        let ghost mut src: Seq<int> = Seq::empty();
        let mut all: Vec<Tile> = Vec::new();
        core::mem::swap(&mut self.tiles, &mut all);
        assert(self@ =~= Seq::<TileView>::empty());
        assert(all@.map_values(|t: Tile| t@) == orig);
        proof {
            reveal(Seq::filter);
            assert(orig.take(0) =~= Seq::<TileView>::empty());
        }
        for tile in iter: all
            invariant
                iter.seq().map_values(|t: Tile| t@) == orig,
                tiles_wf(orig),
                self@ == orig.take(iter.index() as int).filter(keep.keeps_tile()),
                tiles_wf(self@),
                src.len() == self@.len(),
                forall|k: int|
                    0 <= k < src.len() ==> 0 <= #[trigger] src[k] < iter.index() && self@[k]
                        == orig[src[k]],
        {
            let ghost idx = iter.index() as int;
            let ghost before = self@;
            proof {
                assert(orig[idx] == tile@);
                orig.take(idx).lemma_filter_push(tile@, keep.keeps_tile());
                assert(orig.take(idx + 1) =~= orig.take(idx).push(orig[idx]));
            }
            if keep.keeps(&tile.properties) {
                self.tiles.push(tile);
                proof {
                    assert(self@ =~= before.push(orig[idx]));
                    let ghost prev = src;
                    src = src.push(idx);
                    assert forall|a: int, b: int| 0 <= a < b < self@.len() implies (
                    #[trigger] self@[a]).properties != (#[trigger] self@[b]).properties by {
                        if b == before.len() {
                            assert(0 <= prev[a] < idx);
                            assert(orig[prev[a]].properties != orig[idx].properties);
                        } else {
                            assert(before[a].properties != before[b].properties);
                        }
                    }
                }
            }
        }
        proof {
            assert(orig.take(orig.len() as int) =~= orig);
        }
    }
}

/// In a cache without duplicates at most one entry has the identity `p`,
/// and exactly one where `p` is found.
pub proof fn lemma_count_of(s: Seq<TileView>, p: TileProperties)
    requires
        tiles_wf(s),
    ensures
        count_of(s, p) <= 1,
        count_of(s, p) == 1 <==> find(s, p) < s.len(),
    decreases s.len(),
{
    reveal(Seq::filter);
    lemma_first_index_is_first(s, has_properties(p));
    if s.len() > 0 {
        let front = s.drop_last();
        assert forall|i: int| 0 <= i < front.len() implies front[i] == s[i] by {}
        assert(tiles_wf(front)) by {
            assert forall|i: int, j: int| 0 <= i < j < front.len() implies (
            #[trigger] front[i]).properties != (#[trigger] front[j]).properties by {
                assert(s[i].properties != s[j].properties);
            }
            assert forall|i: int| 0 <= i < front.len() implies tile_wf(#[trigger] front[i]) by {
                assert(tile_wf(s[i]));
            }
        }
        lemma_count_of(front, p);
        lemma_first_index_is_first(front, has_properties(p));
        if has_properties(p)(s.last()) {
            assert forall|i: int| 0 <= i < front.len() implies !has_properties(p)(
                #[trigger] front[i],
            ) by {
                assert(s[i].properties != s[s.len() - 1].properties);
            }
            front.lemma_all_neg_filter_empty(has_properties(p));
            lemma_first_index(front, has_properties(p), front.len() as int);
        }
    }
}

/// A lookup that does not ask for the tile changes no entry, so `has_pending`
/// answers after it as before.
pub proof fn lemma_lookup_keeps_pending(s: Seq<TileView>, p: TileProperties)
    ensures
        after_get(s, p, false) == s,
        any_pending(after_get(s, p, false)) == any_pending(s),
{
}

/// A request always yields an entry, and creates at most one entry for an
/// identity: after it exactly one entry has the identity, and a second
/// request changes nothing.
pub proof fn lemma_request_creates_once(s: Seq<TileView>, p: TileProperties)
    requires
        tiles_wf(s),
        p.valid(),
    ensures
        got(s, p, true).is_some(),
        tiles_wf(after_get(s, p, true)),
        count_of(after_get(s, p, true), p) == 1,
        after_get(after_get(s, p, true), p, true) == after_get(s, p, true),
        got(after_get(s, p, true), p, true) == got(s, p, true),
        find(s, p) < s.len() ==> after_get(s, p, true) == s,
        find(s, p) == s.len() ==> after_get(s, p, true).len() == s.len() + 1,
{
    let t = after_get(s, p, true);
    lemma_first_index_is_first(s, has_properties(p));
    if find(s, p) == s.len() {
        assert forall|i: int, j: int| 0 <= i < j < t.len() implies (#[trigger] t[i]).properties != (
        #[trigger] t[j]).properties by {
            if j == s.len() {
                assert(!has_properties(p)(s[i]));
            } else {
                assert(s[i].properties != s[j].properties);
            }
        }
        assert forall|i: int| 0 <= i < t.len() implies tile_wf(#[trigger] t[i]) by {
            if i < s.len() {
                assert(tile_wf(s[i]));
            }
        }
        assert forall|j: int| 0 <= j < s.len() implies !has_properties(p)(#[trigger] t[j]) by {
            assert(!has_properties(p)(s[j]));
        }
        lemma_first_index(t, has_properties(p), s.len() as int);
    }
    lemma_count_of(t, p);
}

/// A job that is taken and written back leaves its tile rendered, with the
/// grid that was written, at the place where it waited; no other entry
/// changes.
pub proof fn lemma_job_completes(s: Seq<TileView>, data: Seq<u32>)
    requires
        tiles_wf(s),
        next_job(s).is_some(),
        data.len() == next_job(s).unwrap().size.spec_area(),
    ensures
        after_store(after_take(s), next_job(s).unwrap(), data) == s.update(
            job_index(s),
            rendered_tile(next_job(s).unwrap(), data),
        ),
        tiles_wf(after_store(after_take(s), next_job(s).unwrap(), data)),
{
    let k = job_index(s);
    let p = next_job(s).unwrap();
    let t = after_take(s);
    lemma_first_index_is_first(s, is_not_rendered());
    assert forall|j: int| 0 <= j < k implies !has_properties(p)(#[trigger] t[j]) by {
        assert(s[j].properties != s[k].properties);
    }
    lemma_first_index(t, has_properties(p), k);
    let done = after_store(t, p, data);
    assert(done =~= s.update(k, rendered_tile(p, data)));
    assert(tile_wf(s[k]));
    assert forall|i: int, j: int| 0 <= i < j < done.len() implies (#[trigger] done[i]).properties != (
    #[trigger] done[j]).properties by {
        assert(s[i].properties != s[j].properties);
    }
    assert forall|i: int| 0 <= i < done.len() implies tile_wf(#[trigger] done[i]) by {
        assert(tile_wf(s[i]));
    }
}

/// Two workers that take a job one after the other are never given the same
/// tile: the first call marks its tile, and no other entry has that identity.
pub proof fn lemma_take_job_never_repeats(s: Seq<TileView>)
    requires
        tiles_wf(s),
    ensures
        tiles_wf(after_take(s)),
        next_job(s).is_some() && next_job(after_take(s)).is_some() ==> next_job(s) != next_job(
            after_take(s),
        ),
        next_job(s).is_none() ==> next_job(after_take(s)).is_none(),
{
    let t = after_take(s);
    lemma_first_index_is_first(s, is_not_rendered());
    lemma_first_index_is_first(t, is_not_rendered());
    let k1 = job_index(s);
    let k2 = job_index(t);
    if k1 < s.len() {
        assert(tile_wf(s[k1]));
        assert forall|i: int, j: int| 0 <= i < j < t.len() implies (#[trigger] t[i]).properties != (
        #[trigger] t[j]).properties by {
            assert(s[i].properties != s[j].properties);
        }
        assert forall|i: int| 0 <= i < t.len() implies tile_wf(#[trigger] t[i]) by {
            assert(tile_wf(s[i]));
        }
        if k2 < t.len() {
            assert(is_not_rendered()(t[k2]));
            assert(k2 != k1);
            assert(t[k2] == s[k2]);
            if k1 < k2 {
                assert(s[k1].properties != s[k2].properties);
            } else {
                assert(s[k2].properties != s[k1].properties);
            }
        }
    }
}

/// True when the tile column `index` covers the sample `n`.
pub open spec fn covers_sample(index: int, w: int, scale_x: int, n: int) -> bool {
    tile_start(index, w, scale_x) <= n < tile_end(index, w, scale_x)
}

/// Consecutive tiles cover ranges of samples that touch and do not overlap:
/// a tile ends where the next one starts, and no sample is in both. At a
/// scale and a width that are not negative, no range runs backwards, and
/// every sample between the start of the first and the end of the second is
/// in one of them.
pub proof fn lemma_tiles_contiguous(index: int, w: int, scale_x: int)
    ensures
        tile_end(index, w, scale_x) == tile_start(index + 1, w, scale_x),
        forall|n: int|
            !(#[trigger] covers_sample(index, w, scale_x, n) && covers_sample(
                index + 1,
                w,
                scale_x,
                n,
            )),
        0 <= w && 0 <= scale_x ==> tile_start(index, w, scale_x) <= tile_end(index, w, scale_x)
            <= tile_end(index + 1, w, scale_x),
        0 <= w && 0 <= scale_x ==> forall|n: int|
            tile_start(index, w, scale_x) <= n < tile_end(index + 1, w, scale_x) ==> (
            #[trigger] covers_sample(index, w, scale_x, n)) || covers_sample(
                index + 1,
                w,
                scale_x,
                n,
            ),
{
    if 0 <= w && 0 <= scale_x {
        lemma_tile_start_monotonic(index, index + 1, w, scale_x);
        lemma_tile_start_monotonic(index + 1, index + 2, w, scale_x);
    }
}

/// Later tiles start later.
pub proof fn lemma_tile_start_monotonic(i: int, j: int, w: int, scale_x: int)
    requires
        i <= j,
        0 <= w,
        0 <= scale_x,
    ensures
        tile_start(i, w, scale_x) <= tile_start(j, w, scale_x),
{
    assert(i * w * scale_x <= j * w * scale_x) by (nonlinear_arith)
        requires
            i <= j,
            0 <= w,
            0 <= scale_x,
    ;
    vstd::arithmetic::div_mod::lemma_div_is_ordered(
        i * w * scale_x,
        j * w * scale_x,
        FIXED_ONE as int,
    );
}

/// A tile covers at most one sample more than the width of a tile stands for,
/// and at least one sample where its width stands for one or more; a tile
/// left of the origin ends at or before it.
pub proof fn lemma_tile_extent(index: int, w: int, scale_x: int)
    requires
        0 <= w,
        0 <= scale_x,
    ensures
        tile_end(index, w, scale_x) - tile_start(index, w, scale_x) <= chunk_samples_of(w, scale_x)
            + 1,
        w * scale_x >= FIXED_ONE ==> tile_start(index, w, scale_x) < tile_end(index, w, scale_x),
        index >= 0 ==> tile_start(index, w, scale_x) >= 0,
        index < 0 ==> tile_end(index, w, scale_x) <= 0,
{
    let one = FIXED_ONE as int;
    let a = index * w * scale_x;
    let b = w * scale_x;
    assert((index + 1) * w * scale_x == a + b) by (nonlinear_arith)
        requires
            a == index * w * scale_x,
            b == w * scale_x,
    ;
    lemma_fundamental_div_mod(a, one);
    lemma_mod_bound(a, one);
    lemma_fundamental_div_mod(b, one);
    lemma_mod_bound(b, one);
    lemma_fundamental_div_mod(a + b, one);
    lemma_mod_bound(a + b, one);
    assert(0 * w * scale_x == 0) by (nonlinear_arith);
    if index >= 0 {
        lemma_tile_start_monotonic(0, index, w, scale_x);
    } else {
        lemma_tile_start_monotonic(index + 1, 0, w, scale_x);
    }
}

/// What a worker does for one tile.
#[derive(Debug, Clone, Copy, PartialEq, Eq, Structural)]
pub enum RenderJob {
    /// The tile lies outside the trace: its grid is blank.
    Blank { properties: TileProperties },
    /// The tile shows the samples from `start` up to, and without, `end`;
    /// `chunk_samples` is the number of samples that its full width stands for.
    Chunk { properties: TileProperties, start: usize, end: usize, chunk_samples: u32 },
}

/// The job for the tile `p` of a trace of `trace_len` samples.
///
/// A tile whose samples end at or before the first sample of the trace, or
/// start after its last one, is blank. Any other tile shows its samples, as
/// far as the trace has them.
pub open spec fn job_of(p: TileProperties, trace_len: int) -> RenderJob {
    let start = tile_start(p.index as int, p.size.w as int, p.scale.x@);
    let end = tile_end(p.index as int, p.size.w as int, p.scale.x@);
    if end <= 0 || start >= trace_len {
        RenderJob::Blank { properties: p }
    } else {
        RenderJob::Chunk {
            properties: p,
            start: start as usize,
            end: (if end < trace_len {
                end
            } else {
                trace_len
            }) as usize,
            chunk_samples: chunk_samples_of(p.size.w as int, p.scale.x@) as u32,
        }
    }
}

impl RenderJob {
    /// The tile of the job.
    pub open spec fn spec_properties(&self) -> TileProperties {
        match *self {
            RenderJob::Blank { properties } => properties,
            RenderJob::Chunk { properties, .. } => properties,
        }
    }

    /// The tile of the job can be rendered, and the job names at least one
    /// sample and no more than a renderer takes.
    pub open spec fn wf(&self) -> bool {
        &&& self.spec_properties().valid()
        &&& match *self {
            RenderJob::Blank { .. } => true,
            RenderJob::Chunk { start, end, chunk_samples, .. } => {
                &&& start < end
                &&& end - start <= RENDERER_MAX_TRACE_SIZE
                &&& chunk_samples >= 1
            },
        }
    }

    /// The samples that the job names exist in a trace of `trace_len` samples.
    pub open spec fn within(&self, trace_len: int) -> bool {
        match *self {
            RenderJob::Blank { .. } => true,
            RenderJob::Chunk { end, .. } => end <= trace_len,
        }
    }

    /// True when the job names the sample `n` of the trace.
    pub open spec fn names_sample(&self, n: int) -> bool {
        match *self {
            RenderJob::Blank { .. } => false,
            RenderJob::Chunk { start, end, .. } => start <= n < end,
        }
    }

    /// Number of samples that the job asks for.
    pub open spec fn spec_sample_count(&self) -> int {
        match *self {
            RenderJob::Blank { .. } => 0,
            RenderJob::Chunk { start, end, .. } => end - start,
        }
    }

    /// The grid of the job, for the scaled amplitudes `levels` of its samples.
    pub open spec fn grid(&self, levels: Seq<i32>) -> Seq<u32> {
        match *self {
            RenderJob::Blank { properties } => blank_grid(properties.size.spec_area()),
            RenderJob::Chunk { properties, chunk_samples, .. } => density_grid(
                chunk_samples as int,
                levels,
                properties.size.w as int,
                properties.size.h as int,
            ),
        }
    }

    /// The tile of the job.
    pub fn properties(&self) -> (p: TileProperties)
        ensures
            p == self.spec_properties(),
    {
        match self {
            RenderJob::Blank { properties } => *properties,
            RenderJob::Chunk { properties, .. } => *properties,
        }
    }

    /// The job for the tile `properties` of a trace of `trace_len` samples.
    pub fn plan(properties: TileProperties, trace_len: usize) -> (job: RenderJob)
        requires
            properties.valid(),
        ensures
            job == job_of(properties, trace_len as int),
            job.wf(),
            job.within(trace_len as int),
    {
        let (start, end) = properties.sample_range();
        proof {
            lemma_tile_extent(properties.index as int, properties.size.w as int, properties.scale.x@);
            lemma_tile_start_monotonic(
                properties.index as int,
                properties.index + 1,
                properties.size.w as int,
                properties.scale.x@,
            );
        }
        if end <= 0 || start >= trace_len as i128 {
            return RenderJob::Blank { properties };
        }
        let stop: i128 = if end < trace_len as i128 {
            end
        } else {
            trace_len as i128
        };
        assert(0 <= (properties.size.w as int) * properties.scale.x@ <= 0xffff_ffff
            * 0x7fff_ffff_ffff_ffff) by (nonlinear_arith)
            requires
                0 <= properties.size.w <= 0xffff_ffff,
                0 <= properties.scale.x@ <= 0x7fff_ffff_ffff_ffff,
        ;
        let chunk: i128 = floor_one((properties.size.w as i128) * (properties.scale.x.bits as i128));
        proof {
            let one = FIXED_ONE as int;
            let b = (properties.size.w as int) * properties.scale.x@;
            assert(b >= one) by (nonlinear_arith)
                requires
                    b == (properties.size.w as int) * properties.scale.x@,
                    properties.size.w >= 1,
                    properties.scale.x@ >= one,
                    one > 0,
            ;
            vstd::arithmetic::div_mod::lemma_div_is_ordered(one, b, one);
        }
        RenderJob::Chunk {
            properties,
            start: start as usize,
            end: stop as usize,
            chunk_samples: chunk as u32,
        }
    }
}

/// Renders the job with `renderer`, from the scaled amplitudes `levels` of the
/// samples that the job names. A blank job gives a grid of zeros of the size
/// of the tile.
pub fn render_job<R: Renderer + ?Sized>(renderer: &R, job: &RenderJob, levels: &[i32]) -> (grid: Vec<u32>)
    requires
        job.wf(),
        levels@.len() == job.spec_sample_count(),
    ensures
        grid@ == job.grid(levels@),
        grid@.len() == job.spec_properties().size.spec_area(),
        job is Blank ==> forall|k: int| 0 <= k < grid@.len() ==> grid@[k] == 0,
{
    match job {
        RenderJob::Blank { properties } => {
            let cells: usize = (properties.size.w as usize) * (properties.size.h as usize);
            zero_grid(cells)
        },
        RenderJob::Chunk { properties, start: _, end: _, chunk_samples } => {
            renderer.render(*chunk_samples, levels, properties.size.w, properties.size.h)
        },
    }
}

/// Number of samples of the trace of the viewer `owner_id`, where
/// `trace_lens` holds the number of samples of each trace. An owner without
/// a trace has no sample.
pub open spec fn trace_len_of(trace_lens: Seq<usize>, owner_id: u32) -> int {
    if owner_id < trace_lens.len() {
        trace_lens[owner_id as int] as int
    } else {
        0
    }
}

/// State of a worker of the background pipeline: idle, or busy with one job.
///
/// The worker alternates two steps on the shared cache. `begin` takes the
/// next tile that waits and says what to render; `finish` writes the grid
/// back. Between the two the cache is free for the consumer and for other
/// workers. A job, once begun, is always finished.
pub struct TilingRenderer {
    trace_lens: Vec<usize>,
    job: Option<RenderJob>,
}

impl TilingRenderer {
    /// Number of samples of each trace that the worker renders; the owner of
    /// a tile is the position of its trace.
    pub closed spec fn spec_trace_lens(&self) -> Seq<usize> {
        self.trace_lens@
    }

    /// The job that the worker is busy with, if any.
    pub closed spec fn current(&self) -> Option<RenderJob> {
        self.job
    }

    /// A busy worker holds a job on the trace of the owner of its tile.
    pub open spec fn wf(&self) -> bool {
        self.current().is_some() ==> self.current().unwrap().wf() && self.current().unwrap().within(
            trace_len_of(self.spec_trace_lens(), self.current().unwrap().spec_properties().owner_id),
        )
    }

    /// An idle worker for traces of `trace_lens` samples.
    pub fn new(trace_lens: Vec<usize>) -> (worker: Self)
        ensures
            worker.spec_trace_lens() == trace_lens@,
            worker.current().is_none(),
            worker.wf(),
    {
        Self { trace_lens, job: None }
    }

    /// The job that the worker is busy with, if any.
    pub fn job(&self) -> (r: Option<RenderJob>)
        ensures
            r == self.current(),
    {
        self.job
    }

    /// Takes the next tile that waits in `tiling` and becomes busy with its
    /// job. Where no tile waits, the worker stays idle and the cache is
    /// unchanged: the worker then sleeps until `has_pending` holds again.
    pub fn begin(&mut self, tiling: &mut Tiling) -> (r: Option<RenderJob>)
        requires
            old(self).current().is_none(),
            old(tiling).wf(),
        ensures
            final(tiling).wf(),
            final(self).wf(),
            final(self).spec_trace_lens() == old(self).spec_trace_lens(),
            final(self).current() == r,
            final(tiling)@ == after_take(old(tiling)@),
            r == match next_job(old(tiling)@) {
                Some(p) => Some(job_of(p, trace_len_of(old(self).spec_trace_lens(), p.owner_id))),
                None => None,
            },
    {
        proof {
            lemma_first_index_is_first(tiling@, is_not_rendered());
        }
        match tiling.take_job() {
            Some(properties) => {
                assert(tile_wf(old(tiling)@[job_index(old(tiling)@)]));
                let owner: usize = properties.owner_id as usize;
                let trace_len: usize = if owner < self.trace_lens.len() {
                    self.trace_lens[owner]
                } else {
                    0
                };
                let job = RenderJob::plan(properties, trace_len);
                self.job = Some(job);
                Some(job)
            },
            None => None,
        }
    }

    /// Writes the grid `data` of the current job back to `tiling` and becomes
    /// idle. The tile becomes rendered; where it has been removed from the
    /// cache in the meantime, it is added again.
    pub fn finish(&mut self, tiling: &mut Tiling, data: Vec<u32>)
        requires
            old(self).current().is_some(),
            old(self).wf(),
            old(tiling).wf(),
            data@.len() == old(self).current().unwrap().spec_properties().size.spec_area(),
        ensures
            final(tiling).wf(),
            final(self).wf(),
            final(self).current().is_none(),
            final(self).spec_trace_lens() == old(self).spec_trace_lens(),
            final(tiling)@ == after_store(
                old(tiling)@,
                old(self).current().unwrap().spec_properties(),
                data@,
            ),
    {
        match self.job {
            Some(job) => {
                tiling.store_result(job.properties(), data);
                self.job = None;
            },
            None => {},
        }
    }
}

/// The tile on the right of `p`: the same in all but its column.
pub open spec fn next_tile(p: TileProperties) -> TileProperties {
    TileProperties {
        owner_id: p.owner_id,
        scale: p.scale,
        offset: p.offset,
        index: (p.index + 1) as i32,
        size: p.size,
    }
}

/// The job of a tile names exactly the samples that the tile covers and the
/// trace has: those from `tile_start` up to, and without, `tile_end`, cut at
/// the end of the trace.
pub proof fn lemma_job_names_covered_samples(p: TileProperties, trace_len: int, n: int)
    requires
        p.valid(),
        0 <= trace_len <= usize::MAX,
    ensures
        job_of(p, trace_len).names_sample(n) <==> 0 <= n < trace_len && covers_sample(
            p.index as int,
            p.size.w as int,
            p.scale.x@,
            n,
        ),
{
    lemma_tile_extent(p.index as int, p.size.w as int, p.scale.x@);
}

/// The jobs of two neighbouring tiles name ranges of samples that touch and
/// do not overlap: no sample is in both, the second starts where the tile of
/// the first ends, and every sample of the trace from the start of the first
/// tile to the end of the second is in one of them.
pub proof fn lemma_jobs_contiguous(p: TileProperties, trace_len: int)
    requires
        p.valid(),
        p.index < i32::MAX,
        0 <= trace_len <= usize::MAX,
    ensures
        forall|n: int|
            !(#[trigger] job_of(p, trace_len).names_sample(n) && job_of(
                next_tile(p),
                trace_len,
            ).names_sample(n)),
        job_of(next_tile(p), trace_len) is Chunk ==> job_of(next_tile(p), trace_len)->start
            == tile_end(p.index as int, p.size.w as int, p.scale.x@),
        job_of(p, trace_len) is Chunk && job_of(next_tile(p), trace_len) is Chunk ==> job_of(
            p,
            trace_len,
        )->end == job_of(next_tile(p), trace_len)->start,
        forall|n: int|
            0 <= n < trace_len && tile_start(p.index as int, p.size.w as int, p.scale.x@) <= n
                < tile_end(p.index + 1, p.size.w as int, p.scale.x@) ==> (#[trigger] job_of(
                p,
                trace_len,
            ).names_sample(n)) || job_of(next_tile(p), trace_len).names_sample(n),
{
    let q = next_tile(p);
    assert(q.valid());
    lemma_tiles_contiguous(p.index as int, p.size.w as int, p.scale.x@);
    lemma_tile_extent(p.index as int, p.size.w as int, p.scale.x@);
    lemma_tile_extent(q.index as int, q.size.w as int, q.scale.x@);
    assert forall|n: int|
        !(#[trigger] job_of(p, trace_len).names_sample(n) && job_of(q, trace_len).names_sample(
            n,
        )) by {
        lemma_job_names_covered_samples(p, trace_len, n);
        lemma_job_names_covered_samples(q, trace_len, n);
    }
    assert forall|n: int|
        0 <= n < trace_len && tile_start(p.index as int, p.size.w as int, p.scale.x@) <= n
            < tile_end(p.index + 1, p.size.w as int, p.scale.x@) implies (#[trigger] job_of(
        p,
        trace_len,
    ).names_sample(n)) || job_of(q, trace_len).names_sample(n) by {
        lemma_job_names_covered_samples(p, trace_len, n);
        lemma_job_names_covered_samples(q, trace_len, n);
    }
}

/// A tile whose samples all lie before the trace or after it gets a grid of
/// zeros of the size of the tile.
pub proof fn lemma_outside_is_blank(p: TileProperties, trace_len: int, levels: Seq<i32>)
    requires
        tile_end(p.index as int, p.size.w as int, p.scale.x@) <= 0 || tile_start(
            p.index as int,
            p.size.w as int,
            p.scale.x@,
        ) >= trace_len,
    ensures
        job_of(p, trace_len) == (RenderJob::Blank { properties: p }),
        job_of(p, trace_len).grid(levels).len() == p.size.spec_area(),
        forall|k: int|
            0 <= k < p.size.spec_area() ==> job_of(p, trace_len).grid(levels)[k] == 0,
{
}

} // verus!
