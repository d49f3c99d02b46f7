//! Diagnostic helper: the value distribution of the planes of an NV12 image.
//! Used to debug capture and color-conversion issues.
//!
//! An NV12 image is a full-size Y plane, followed by a half-size plane of
//! interleaved U and V samples. Rows are `pitch` bytes apart.
use vstd::prelude::*;

verus! {

/// Where the samples of a plane lie in a buffer.
#[derive(Debug, Clone, Copy, PartialEq, Eq, Structural)]
pub struct Plane {
    /// The place of the first sample.
    pub start: usize,
    pub rows: usize,
    /// The number of samples in a row.
    pub cols: usize,
    /// The distance between rows.
    pub pitch: usize,
    /// The distance between samples of a row.
    pub step: usize,
}

impl Plane {
    /// The place of a sample.
    pub open spec fn place(self, row: int, col: int) -> int {
        self.start + row * self.pitch + col * self.step
    }

    /// Whether every sample lies within a buffer of `len` bytes.
    pub open spec fn fits(self, len: int) -> bool {
        forall|row: int, col: int|
            0 <= row < self.rows && 0 <= col < self.cols ==> 0 <= #[trigger] self.place(row, col)
                < len
    }

    /// Whether there is such a sample.
    pub open spec fn has(self, row: int, col: int) -> bool {
        0 <= row < self.rows && 0 <= col < self.cols
    }
}

/// The value of a sample.
pub open spec fn sample(buf: Seq<u8>, plane: Plane, row: int, col: int) -> u8 {
    buf[plane.place(row, col)]
}

/// The sum of the first `cols` samples of a row.
pub open spec fn row_sum(buf: Seq<u8>, plane: Plane, row: int, cols: nat) -> nat
    decreases cols,
{
    if cols == 0 {
        0
    } else {
        row_sum(buf, plane, row, (cols - 1) as nat) + sample(buf, plane, row, cols - 1) as nat
    }
}

/// The sum of the first `rows` rows.
pub open spec fn plane_sum(buf: Seq<u8>, plane: Plane, rows: nat) -> nat
    decreases rows,
{
    if rows == 0 {
        0
    } else {
        plane_sum(buf, plane, (rows - 1) as nat) + row_sum(
            buf,
            plane,
            rows - 1,
            plane.cols as nat,
        )
    }
}

/// Whether `min` is the smallest sample, or 255 if there is none.
pub open spec fn is_min(buf: Seq<u8>, plane: Plane, min: u8) -> bool {
    &&& forall|row: int, col: int|
        plane.has(row, col) ==> min <= #[trigger] sample(buf, plane, row, col)
    &&& min == 255 || exists|row: int, col: int|
        plane.has(row, col) && min == #[trigger] sample(buf, plane, row, col)
}

/// Whether `max` is the largest sample, or 0 if there is none.
pub open spec fn is_max(buf: Seq<u8>, plane: Plane, max: u8) -> bool {
    &&& forall|row: int, col: int|
        plane.has(row, col) ==> #[trigger] sample(buf, plane, row, col) <= max
    &&& max == 0 || exists|row: int, col: int|
        plane.has(row, col) && max == #[trigger] sample(buf, plane, row, col)
}

/// The value distribution of a plane.
#[derive(Debug, Clone, Copy, PartialEq, Eq, Structural)]
pub struct PlaneStats {
    pub min: u8,
    pub max: u8,
    pub sum: u64,
    /// The number of samples.
    pub count: usize,
}

/// Whether `stats` is the value distribution of a plane.
pub open spec fn describes(stats: PlaneStats, buf: Seq<u8>, plane: Plane) -> bool {
    &&& is_min(buf, plane, stats.min)
    &&& is_max(buf, plane, stats.max)
    &&& stats.sum == plane_sum(buf, plane, plane.rows as nat)
    &&& stats.count == plane.rows * plane.cols
}

proof fn lemma_row_sum_bound(buf: Seq<u8>, plane: Plane, row: int, cols: nat)
    ensures
        row_sum(buf, plane, row, cols) <= 255 * cols,
    decreases cols,
{
    if cols > 0 {
        lemma_row_sum_bound(buf, plane, row, (cols - 1) as nat);
    }
}

proof fn lemma_plane_sum_bound(buf: Seq<u8>, plane: Plane, rows: nat)
    ensures
        plane_sum(buf, plane, rows) <= 255 * (rows * plane.cols),
    decreases rows,
{
    if rows > 0 {
        lemma_plane_sum_bound(buf, plane, (rows - 1) as nat);
        lemma_row_sum_bound(buf, plane, rows - 1, plane.cols as nat);
        assert(rows * plane.cols == (rows - 1) * plane.cols + plane.cols) by (nonlinear_arith)
            requires
                rows > 0,
        ;
    } else {
        assert(rows * plane.cols == 0) by (nonlinear_arith)
            requires
                rows == 0,
        ;
    }
}

/// The value distribution of a plane.
pub fn plane_stats(buf: &Vec<u8>, plane: Plane) -> (stats: PlaneStats)
    requires
        plane.fits(buf@.len() as int),
        plane.rows * plane.cols <= usize::MAX,
        255 * (plane.rows * plane.cols) <= u64::MAX,
    ensures
        describes(stats, buf@, plane),
{
    let len: usize = buf.len();
    let mut min: u8 = 255;
    let mut max: u8 = 0;
    let mut sum: u64 = 0;
    let mut row: usize = 0;
    while row < plane.rows
        invariant
            row <= plane.rows,
            len == buf@.len(),
            plane.fits(buf@.len() as int),
            255 * (plane.rows * plane.cols) <= u64::MAX,
            sum == plane_sum(buf@, plane, row as nat),
            forall|r: int, c: int|
                plane.has(r, c) && r < row ==> min <= #[trigger] sample(buf@, plane, r, c) <= max,
            min == 255 || exists|r: int, c: int|
                plane.has(r, c) && min == #[trigger] sample(buf@, plane, r, c),
            max == 0 || exists|r: int, c: int|
                plane.has(r, c) && max == #[trigger] sample(buf@, plane, r, c),
        decreases plane.rows - row,
    {
        let ghost before = sum;
        let mut col: usize = 0;
        while col < plane.cols
            invariant
                row < plane.rows,
                col <= plane.cols,
                len == buf@.len(),
                plane.fits(buf@.len() as int),
                255 * (plane.rows * plane.cols) <= u64::MAX,
                before == plane_sum(buf@, plane, row as nat),
                sum == before + row_sum(buf@, plane, row as int, col as nat),
                forall|r: int, c: int|
                    plane.has(r, c) && (r < row || r == row && c < col) ==> min <= #[trigger] sample(
                        buf@,
                        plane,
                        r,
                        c,
                    ) <= max,
                min == 255 || exists|r: int, c: int|
                    plane.has(r, c) && min == #[trigger] sample(buf@, plane, r, c),
                max == 0 || exists|r: int, c: int|
                    plane.has(r, c) && max == #[trigger] sample(buf@, plane, r, c),
            decreases plane.cols - col,
        {
            proof {
                assert(0 <= plane.place(row as int, col as int) < len);
                assert(0 <= row * plane.pitch) by (nonlinear_arith);
                assert(0 <= col * plane.step) by (nonlinear_arith);
                lemma_plane_sum_bound(buf@, plane, row as nat);
                lemma_row_sum_bound(buf@, plane, row as int, col as nat);
                assert((row + 1) * plane.cols <= plane.rows * plane.cols) by (nonlinear_arith)
                    requires
                        row + 1 <= plane.rows,
                ;
                assert((row + 1) * plane.cols == row * plane.cols + plane.cols) by (nonlinear_arith);
            }
            let v: u8 = buf[plane.start + row * plane.pitch + col * plane.step];
            assert(v == sample(buf@, plane, row as int, col as int));
            assert(plane.has(row as int, col as int));
            if v < min {
                min = v;
            }
            if v > max {
                max = v;
            }
            sum = sum + v as u64;
            col = col + 1;
        }
        row = row + 1;
    }
    PlaneStats { min, max, sum, count: plane.rows * plane.cols }
}

/// The value distributions of the three planes of an NV12 image.
#[derive(Debug, Clone, Copy, PartialEq, Eq, Structural)]
pub struct Nv12Stats {
    pub y: PlaneStats,
    pub u: PlaneStats,
    pub v: PlaneStats,
}

/// The Y plane.
pub open spec fn y_plane(width: u32, height: u32, pitch: usize) -> Plane {
    Plane { start: 0, rows: height as usize, cols: width as usize, pitch, step: 1 }
}

/// The U plane (`offset` 0) or the V plane (`offset` 1), which lie behind
/// the Y plane.
pub open spec fn chroma_plane(width: u32, height: u32, pitch: usize, offset: int) -> Plane {
    Plane {
        start: (height * pitch + offset) as usize,
        rows: (height / 2) as usize,
        cols: (width / 2) as usize,
        pitch,
        step: 2,
    }
}

/// Whether a buffer of `len` bytes holds an NV12 image: all rows up to the
/// last sample of the last one.
pub open spec fn holds_nv12(len: int, width: u32, height: u32, pitch: usize) -> bool {
    &&& width <= pitch
    &&& height > 0 ==> (height + height / 2 - 1) * pitch + width <= len
}

proof fn lemma_planes_fit(len: int, width: u32, height: u32, pitch: usize)
    requires
        holds_nv12(len, width, height, pitch),
        len <= usize::MAX,
    ensures
        y_plane(width, height, pitch).fits(len),
        height * width <= usize::MAX,
        height / 2 > 0 && width / 2 > 0 ==> height * pitch + 1 <= usize::MAX,
        height / 2 > 0 && width / 2 > 0 ==> chroma_plane(width, height, pitch, 0).fits(len),
        height / 2 > 0 && width / 2 > 0 ==> chroma_plane(width, height, pitch, 1).fits(len),
        (height / 2) * (width / 2) <= height * width,
{
    let h = height as int;
    let w = width as int;
    let p = pitch as int;
    let half = (height / 2) as int;
    let y = y_plane(width, height, pitch);
    if h > 0 {
        assert((h - 1) * p <= (h + half - 1) * p) by (nonlinear_arith)
            requires
                half >= 0,
                p >= 0,
        ;
        assert(h * w <= (h - 1) * p + w) by (nonlinear_arith)
            requires
                h > 0,
                w <= p,
        ;
    } else {
        assert(h * w == 0) by (nonlinear_arith)
            requires
                h == 0,
        ;
    }
    assert forall|row: int, col: int|
        0 <= row < y.rows && 0 <= col < y.cols implies 0 <= #[trigger] y.place(row, col) < len by {
        assert(0 <= row * p <= (h - 1) * p) by (nonlinear_arith)
            requires
                0 <= row <= h - 1,
                p >= 0,
        ;
        assert(col * y.step == col);
        assert(y.place(row, col) == row * p + col);
    }
    assert((height / 2) * (width / 2) <= h * w) by (nonlinear_arith)
        requires
            0 <= height / 2 <= h,
            0 <= width / 2 <= w,
    ;
    if half > 0 && width / 2 > 0 {
        assert(h * p <= (h + half - 1) * p) by (nonlinear_arith)
            requires
                half >= 1,
                p >= 0,
        ;
        assert forall|offset: int, row: int, col: int|
            0 <= offset <= 1 && 0 <= row < half && 0 <= col < width / 2 implies 0
            <= #[trigger] chroma_plane(width, height, pitch, offset).place(row, col) < len by {
            assert(0 <= row * p <= (half - 1) * p) by (nonlinear_arith)
                requires
                    0 <= row <= half - 1,
                    p >= 0,
            ;
            assert(h * p + (half - 1) * p == (h + half - 1) * p) by (nonlinear_arith);
            assert(h * p >= 0) by (nonlinear_arith)
                requires
                    h >= 0,
                    p >= 0,
            ;
        }
        assert forall|row: int, col: int| 0 <= row < half && 0 <= col < width / 2 implies 0
            <= #[trigger] chroma_plane(width, height, pitch, 0).place(row, col) < len by {}
        assert forall|row: int, col: int| 0 <= row < half && 0 <= col < width / 2 implies 0
            <= #[trigger] chroma_plane(width, height, pitch, 1).place(row, col) < len by {}
    }
}

/// The value distribution of a plane without samples.
fn no_samples() -> (stats: PlaneStats)
    ensures
        stats == (PlaneStats { min: 255, max: 0, sum: 0, count: 0 }),
{
    PlaneStats { min: 255, max: 0, sum: 0, count: 0 }
}

proof fn lemma_empty_plane(buf: Seq<u8>, plane: Plane, rows: nat)
    requires
        plane.rows == 0 || plane.cols == 0,
        rows <= plane.rows,
    ensures
        plane_sum(buf, plane, rows) == 0,
        plane.rows * plane.cols == 0,
    decreases rows,
{
    if rows > 0 {
        lemma_empty_plane(buf, plane, (rows - 1) as nat);
    }
    assert(plane.rows * plane.cols == 0) by (nonlinear_arith)
        requires
            plane.rows == 0 || plane.cols == 0,
    ;
}

/// The value distributions of the planes of an NV12 image. Where the image
/// is too small for U and V samples, there are none.
pub fn dump_nv12_stats(buf: &Vec<u8>, width: u32, height: u32, pitch: usize) -> (stats: Nv12Stats)
    requires
        holds_nv12(buf@.len() as int, width, height, pitch),
        255 * (width * height) <= u64::MAX,
    ensures
        describes(stats.y, buf@, y_plane(width, height, pitch)),
        describes(stats.u, buf@, chroma_plane(width, height, pitch, 0)),
        describes(stats.v, buf@, chroma_plane(width, height, pitch, 1)),
{
    let len: usize = buf.len();
    proof {
        assert(len == buf@.len());
        lemma_planes_fit(buf@.len() as int, width, height, pitch);
        assert(width * height == height * width) by (nonlinear_arith);
    }
    let y = plane_stats(
        buf,
        Plane { start: 0, rows: height as usize, cols: width as usize, pitch, step: 1 },
    );
    let rows: usize = (height / 2) as usize;
    let cols: usize = (width / 2) as usize;
    if rows == 0 || cols == 0 {
        proof {
            lemma_empty_plane(buf@, chroma_plane(width, height, pitch, 0), rows as nat);
            lemma_empty_plane(buf@, chroma_plane(width, height, pitch, 1), rows as nat);
        }
        return Nv12Stats { y, u: no_samples(), v: no_samples() };
    }
    let start: usize = height as usize * pitch;
    let u = plane_stats(buf, Plane { start, rows, cols, pitch, step: 2 });
    let v = plane_stats(buf, Plane { start: start + 1, rows, cols, pitch, step: 2 });
    Nv12Stats { y, u, v }
}

// ---------------------------------------------------------------------
// Laws
// ---------------------------------------------------------------------

proof fn lemma_row_between(buf: Seq<u8>, plane: Plane, row: int, cols: nat, low: int, high: int)
    requires
        cols <= plane.cols,
        0 <= row < plane.rows,
        forall|r: int, c: int|
            plane.has(r, c) ==> low <= #[trigger] sample(buf, plane, r, c) <= high,
    ensures
        low * cols <= row_sum(buf, plane, row, cols) <= high * cols,
    decreases cols,
{
    if cols > 0 {
        lemma_row_between(buf, plane, row, (cols - 1) as nat, low, high);
        assert(plane.has(row, cols - 1));
        assert(low <= sample(buf, plane, row, cols - 1) <= high);
        assert(low * cols == low * (cols - 1) + low && high * cols == high * (cols - 1) + high)
            by (nonlinear_arith)
            requires
                cols > 0,
        ;
    } else {
        assert(low * cols == 0 && high * cols == 0) by (nonlinear_arith)
            requires
                cols == 0,
        ;
    }
}

proof fn lemma_plane_between(buf: Seq<u8>, plane: Plane, rows: nat, low: int, high: int)
    requires
        rows <= plane.rows,
        forall|r: int, c: int|
            plane.has(r, c) ==> low <= #[trigger] sample(buf, plane, r, c) <= high,
    ensures
        low * (rows * plane.cols) <= plane_sum(buf, plane, rows) <= high * (rows * plane.cols),
    decreases rows,
{
    let n = plane.cols as int;
    if rows > 0 {
        lemma_plane_between(buf, plane, (rows - 1) as nat, low, high);
        lemma_row_between(buf, plane, rows - 1, plane.cols as nat, low, high);
        assert(low * (rows * n) == low * ((rows - 1) * n) + low * n && high * (rows * n) == high * ((
        rows - 1) * n) + high * n) by (nonlinear_arith)
            requires
                rows > 0,
        ;
    } else {
        assert(low * (rows * n) == 0 && high * (rows * n) == 0) by (nonlinear_arith)
            requires
                rows == 0,
        ;
    }
}

/// Between the smallest and the largest sample lies every sample, and so
/// their average; and both occur.
pub proof fn law_samples_lie_between(buf: Vec<u8>, plane: Plane, stats: PlaneStats)
    requires
        call_ensures(plane_stats, (&buf, plane), stats),
    ensures
        stats.count == plane.rows * plane.cols,
        forall|row: int, col: int|
            0 <= row < plane.rows && 0 <= col < plane.cols ==> stats.min <= #[trigger] buf@[plane.start
                + row * plane.pitch + col * plane.step] <= stats.max,
        stats.min * stats.count <= stats.sum <= stats.max * stats.count,
        stats.count > 0 ==> stats.min <= stats.max,
        stats.count > 0 ==> exists|row: int, col: int|
            0 <= row < plane.rows && 0 <= col < plane.cols && stats.min == #[trigger] sample(
                buf@,
                plane,
                row,
                col,
            ),
        stats.count > 0 ==> exists|row: int, col: int|
            0 <= row < plane.rows && 0 <= col < plane.cols && stats.max == #[trigger] sample(
                buf@,
                plane,
                row,
                col,
            ),
        stats.count == 0 ==> stats.sum == 0 && stats.min == 255 && stats.max == 0,
{
    lemma_plane_between(
        buf@,
        plane,
        plane.rows as nat,
        stats.min as int,
        stats.max as int,
    );
    assert forall|row: int, col: int|
        0 <= row < plane.rows && 0 <= col < plane.cols implies stats.min <= #[trigger] buf@[plane.start
        + row * plane.pitch + col * plane.step] <= stats.max by {
        assert(plane.has(row, col));
        assert(sample(buf@, plane, row, col) == buf@[plane.start + row * plane.pitch + col
            * plane.step]);
    }
    if stats.count > 0 {
        assert(plane.rows > 0 && plane.cols > 0) by (nonlinear_arith)
            requires
                plane.rows * plane.cols > 0,
                plane.rows >= 0,
                plane.cols >= 0,
        ;
        assert(plane.has(0, 0));
        assert(stats.min <= sample(buf@, plane, 0, 0) <= stats.max);
    } else {
        assert(plane.rows == 0 || plane.cols == 0) by (nonlinear_arith)
            requires
                plane.rows * plane.cols == 0,
        ;
        assert(stats.min * stats.count == 0 && stats.max * stats.count == 0) by (nonlinear_arith)
            requires
                stats.count == 0,
        ;
    }
}

/// An image of three even colors is described by them: the brightness is read
/// from the first rows, one sample per byte, and the two colors from the rows
/// behind them, in turns, one sample for every two pixels each way.
pub proof fn law_even_image(
    buf: Vec<u8>,
    width: u32,
    height: u32,
    pitch: usize,
    stats: Nv12Stats,
    y: u8,
    u: u8,
    v: u8,
)
    requires
        width >= 2 && height >= 2,
        holds_nv12(buf@.len() as int, width, height, pitch),
        call_ensures(dump_nv12_stats, (&buf, width, height, pitch), stats),
        forall|row: int, col: int|
            0 <= row < height && 0 <= col < width ==> #[trigger] buf@[row * pitch + col] == y,
        forall|row: int, col: int|
            0 <= row < height / 2 && 0 <= col < width / 2 ==> #[trigger] buf@[(height + row) * pitch
                + 2 * col] == u && buf@[(height + row) * pitch + 2 * col + 1] == v,
    ensures
        stats.y.min == y && stats.y.max == y && stats.y.count == width * height && stats.y.sum == y
            * (width * height),
        stats.u.min == u && stats.u.max == u && stats.u.count == (width / 2) * (height / 2)
            && stats.u.sum == u * ((width / 2) * (height / 2)),
        stats.v.min == v && stats.v.max == v && stats.v.count == (width / 2) * (height / 2)
            && stats.v.sum == v * ((width / 2) * (height / 2)),
{
    assert(buf.len() == buf@.len());
    lemma_planes_fit(buf@.len() as int, width, height, pitch);
    let yp = y_plane(width, height, pitch);
    let up = chroma_plane(width, height, pitch, 0);
    let vp = chroma_plane(width, height, pitch, 1);
    let p = pitch as int;
    assert(height * p >= 0) by (nonlinear_arith)
        requires
            p >= 0,
            height >= 0,
    ;
    assert forall|row: int, col: int| yp.has(row, col) implies y <= #[trigger] sample(
        buf@,
        yp,
        row,
        col,
    ) <= y by {
        assert(buf@[row * pitch + col] == y);
        assert(yp.place(row, col) == row * pitch + col);
    }
    assert forall|row: int, col: int| up.has(row, col) implies u <= #[trigger] sample(
        buf@,
        up,
        row,
        col,
    ) <= u by {
        assert((height + row) * p == height * p + row * p) by (nonlinear_arith);
        assert(buf@[(height + row) * pitch + 2 * col] == u);
        assert(up.place(row, col) == (height + row) * pitch + 2 * col);
    }
    assert forall|row: int, col: int| vp.has(row, col) implies v <= #[trigger] sample(
        buf@,
        vp,
        row,
        col,
    ) <= v by {
        assert((height + row) * p == height * p + row * p) by (nonlinear_arith);
        assert(buf@[(height + row) * pitch + 2 * col] == u);
        assert(vp.place(row, col) == (height + row) * pitch + 2 * col + 1);
    }
    lemma_plane_between(buf@, yp, yp.rows as nat, y as int, y as int);
    lemma_plane_between(buf@, up, up.rows as nat, u as int, u as int);
    lemma_plane_between(buf@, vp, vp.rows as nat, v as int, v as int);
    assert(yp.has(0, 0) && up.has(0, 0) && vp.has(0, 0));
    assert(sample(buf@, yp, 0, 0) == y && sample(buf@, up, 0, 0) == u && sample(buf@, vp, 0, 0)
        == v);
    assert(height * width == width * height) by (nonlinear_arith);
    assert((height / 2) * (width / 2) == (width / 2) * (height / 2)) by (nonlinear_arith);
}

/// Every sample of the image is taken into account: whatever one of them is,
/// it lies between the smallest and the largest of its plane.
pub proof fn law_every_sample_counts(
    buf: Vec<u8>,
    width: u32,
    height: u32,
    pitch: usize,
    stats: Nv12Stats,
    row: int,
    col: int,
)
    requires
        holds_nv12(buf@.len() as int, width, height, pitch),
        call_ensures(dump_nv12_stats, (&buf, width, height, pitch), stats),
    ensures
        0 <= row < height && 0 <= col < width ==> stats.y.min <= buf@[row * pitch + col]
            <= stats.y.max,
        0 <= row < height / 2 && 0 <= col < width / 2 ==> {
            &&& stats.u.min <= buf@[(height + row) * pitch + 2 * col] <= stats.u.max
            &&& stats.v.min <= buf@[(height + row) * pitch + 2 * col + 1] <= stats.v.max
        },
        stats.y.min * stats.y.count <= stats.y.sum <= stats.y.max * stats.y.count,
        stats.u.min * stats.u.count <= stats.u.sum <= stats.u.max * stats.u.count,
        stats.v.min * stats.v.count <= stats.v.sum <= stats.v.max * stats.v.count,
{
    assert(buf.len() == buf@.len());
    lemma_planes_fit(buf@.len() as int, width, height, pitch);
    let yp = y_plane(width, height, pitch);
    let up = chroma_plane(width, height, pitch, 0);
    let vp = chroma_plane(width, height, pitch, 1);
    let p = pitch as int;
    lemma_plane_between(buf@, yp, yp.rows as nat, stats.y.min as int, stats.y.max as int);
    lemma_plane_between(buf@, up, up.rows as nat, stats.u.min as int, stats.u.max as int);
    lemma_plane_between(buf@, vp, vp.rows as nat, stats.v.min as int, stats.v.max as int);
    if 0 <= row < height && 0 <= col < width {
        assert(yp.has(row, col));
        assert(yp.place(row, col) == row * pitch + col);
        assert(stats.y.min <= sample(buf@, yp, row, col) <= stats.y.max);
    }
    if 0 <= row < height / 2 && 0 <= col < width / 2 {
        assert((height + row) * p == height * p + row * p) by (nonlinear_arith);
        assert(height * p >= 0) by (nonlinear_arith)
            requires
                p >= 0,
                height >= 0,
        ;
        assert(up.has(row, col) && vp.has(row, col));
        assert(up.place(row, col) == (height + row) * pitch + 2 * col);
        assert(vp.place(row, col) == (height + row) * pitch + 2 * col + 1);
        assert(stats.u.min <= sample(buf@, up, row, col) <= stats.u.max);
        assert(stats.v.min <= sample(buf@, vp, row, col) <= stats.v.max);
    }
}

} // verus!
