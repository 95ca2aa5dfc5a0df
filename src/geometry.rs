//! Canvas geometry: nearest-neighbour mapping from output pixels to capture
//! pixels, the draw offset, and the split of output rows among workers.

use vstd::prelude::*;
use vstd::arithmetic::div_mod::{lemma_div_is_ordered, lemma_div_plus_one, lemma_fundamental_div_mod};
use vstd::arithmetic::mul::lemma_mul_inequality;

verus! {

/// Capture and output sizes with the draw offset. The horizontal scale is
/// `capture_width / output_width` and the vertical one
/// `capture_height / output_height`, both exact rationals.
#[derive(Clone, Copy, Debug, PartialEq, Eq, Structural)]
pub struct CanvasGeometry {
    pub capture_width: u32,
    pub capture_height: u32,
    pub output_width: u16,
    pub output_height: u16,
    pub offset_x: u16,
    pub offset_y: u16,
}

/// The first output row of worker `i` among `n`: `floor(i * h / n)`.
pub open spec fn row_start(i: int, n: int, h: int) -> int {
    i * h / n
}

/// Whether output row `row` falls in the half-open range of worker `i`.
pub open spec fn in_assignment(i: int, n: int, h: int, row: int) -> bool {
    row_start(i, n, h) <= row < row_start(i + 1, n, h)
}

/// Whether output row `row` falls in the range of some worker among `n`.
pub open spec fn assigned(n: int, h: int, row: int) -> bool {
    exists|i: int| 0 <= i < n && #[trigger] in_assignment(i, n, h, row)
}

impl CanvasGeometry {
    /// All sizes are positive, so both scales are, and a full frame's length
    /// fits in memory indices.
    pub open spec fn wf(&self) -> bool {
        &&& self.capture_width > 0
        &&& self.capture_height > 0
        &&& self.output_width > 0
        &&& self.output_height > 0
        &&& self.capture_width as int * self.capture_height as int <= usize::MAX
    }

    /// Pixels in one captured frame.
    pub open spec fn frame_len(&self) -> int {
        self.capture_width as int * self.capture_height as int
    }

    /// `floor(x * scale_x)`.
    pub open spec fn source_x(&self, x: int) -> int {
        x * self.capture_width / self.output_width as int
    }

    /// `floor(y * scale_y)`.
    pub open spec fn source_y(&self, y: int) -> int {
        y * self.capture_height / self.output_height as int
    }

    /// Row-major index of the capture pixel that output pixel `(x, y)` shows.
    pub open spec fn source_index(&self, x: int, y: int) -> int {
        self.source_y(y) * self.capture_width + self.source_x(x)
    }

    /// The canvas position of output pixel `(x, y)`: the offset is added after
    /// scaling, modulo the 16 bits that the wire carries.
    pub open spec fn target(&self, x: u16, y: u16) -> (u16, u16) {
        (
            ((x as int + self.offset_x as int) % 65536) as u16,
            ((y as int + self.offset_y as int) % 65536) as u16,
        )
    }

    /// Builds the geometry of one run.
    pub fn new(
        capture_width: u32,
        capture_height: u32,
        output_width: u16,
        output_height: u16,
        offset_x: u16,
        offset_y: u16,
    ) -> (r: CanvasGeometry)
        requires
            capture_width > 0,
            capture_height > 0,
            output_width > 0,
            output_height > 0,
            capture_width as int * capture_height as int <= usize::MAX,
        ensures
            r.wf(),
            r == (CanvasGeometry {
                capture_width,
                capture_height,
                output_width,
                output_height,
                offset_x,
                offset_y,
            }),
    {
        CanvasGeometry { capture_width, capture_height, output_width, output_height, offset_x, offset_y }
    }

    /// Index into the captured frame of the pixel shown at output `(x, y)`.
    pub fn frame_index(&self, x: u16, y: u16) -> (r: usize)
        requires
            self.wf(),
            x < self.output_width,
            y < self.output_height,
        ensures
            r == self.source_index(x as int, y as int),
            r < self.frame_len(),
    {
        proof {
            self.lemma_index_in_frame(x as int, y as int);
        }
        assert(x as u64 * self.capture_width as u64 <= 0xffff_ffff_ffff) by (nonlinear_arith)
            requires
                x <= 0xffff,
                self.capture_width <= 0xffff_ffff,
        ;
        assert(y as u64 * self.capture_height as u64 <= 0xffff_ffff_ffff) by (nonlinear_arith)
            requires
                y <= 0xffff,
                self.capture_height <= 0xffff_ffff,
        ;
        let fx: u64 = x as u64 * self.capture_width as u64 / self.output_width as u64;
        let fy: u64 = y as u64 * self.capture_height as u64 / self.output_height as u64;
        (fy * self.capture_width as u64 + fx) as usize
    }

    /// Canvas position of output pixel `(x, y)`.
    pub fn target_of(&self, x: u16, y: u16) -> (r: (u16, u16))
        ensures
            r == self.target(x, y),
    {
        (x.wrapping_add(self.offset_x), y.wrapping_add(self.offset_y))
    }

    /// Every output pixel maps into the captured frame: its source column is
    /// below the capture width, its source row below the capture height, and
    /// its index below the frame's length.
    pub proof fn lemma_index_in_frame(&self, x: int, y: int)
        requires
            self.wf(),
            0 <= x < self.output_width,
            0 <= y < self.output_height,
        ensures
            0 <= self.source_x(x) < self.capture_width,
            0 <= self.source_y(y) < self.capture_height,
            0 <= self.source_index(x, y) < self.frame_len(),
    {
        lemma_scaled_below(x, self.capture_width as int, self.output_width as int);
        lemma_scaled_below(y, self.capture_height as int, self.output_height as int);
        let sx = self.source_x(x);
        let sy = self.source_y(y);
        let cw = self.capture_width as int;
        let ch = self.capture_height as int;
        assert(sy * cw + sx < ch * cw) by (nonlinear_arith)
            requires
                0 <= sy < ch,
                0 <= sx < cw,
        ;
        assert(ch * cw == cw * ch) by (nonlinear_arith);
        assert(0 <= sy * cw) by (nonlinear_arith)
            requires
                0 <= sy,
                0 <= cw,
        ;
    }
}

/// `0 <= floor(v * c / o) < c` for `0 <= v < o`.
proof fn lemma_scaled_below(v: int, c: int, o: int)
    requires
        0 <= v < o,
        0 < c,
    ensures
        0 <= v * c / o < c,
{
    assert(0 <= v * c) by (nonlinear_arith)
        requires
            0 <= v,
            0 < c,
    ;
    assert(v * c < o * c) by (nonlinear_arith)
        requires
            v < o,
            0 < c,
    ;
    lemma_fundamental_div_mod(v * c, o);
    let q = v * c / o;
    assert(q < c) by (nonlinear_arith)
        requires
            v * c == o * q + (v * c) % o,
            0 <= (v * c) % o,
            v * c < o * c,
            0 < o,
    ;
    lemma_div_is_ordered(0, v * c, o);
}

/// Rows of worker `i` among `n` for an output of `h` rows:
/// `[floor(i * h / n), floor((i + 1) * h / n))`.
pub fn row_range(i: usize, n: usize, h: u16) -> (r: (u16, u16))
    requires
        n >= 1,
        i < n,
    ensures
        r.0 == row_start(i as int, n as int, h as int),
        r.1 == row_start(i as int + 1, n as int, h as int),
{
    proof {
        lemma_row_start_bounds(i as int, n as int, h as int);
        lemma_row_start_bounds(i as int + 1, n as int, h as int);
    }
    assert((i as u128 + 1) * h as u128 <= 0x1_0000_0000_0000_0000 * 0xffff) by (nonlinear_arith)
        requires
            i < 0xffff_ffff_ffff_ffff,
            h <= 0xffff,
    ;
    assert(i as u128 * h as u128 <= 0x1_0000_0000_0000_0000 * 0xffff) by (nonlinear_arith)
        requires
            i < 0xffff_ffff_ffff_ffff,
            h <= 0xffff,
    ;
    let start: u128 = i as u128 * h as u128 / n as u128;
    let end: u128 = (i as u128 + 1) * h as u128 / n as u128;
    (start as u16, end as u16)
}

/// The row ranges of all `n` workers, in worker order.
pub fn partition_rows(n: usize, h: u16) -> (r: Vec<(u16, u16)>)
    requires
        n >= 1,
    ensures
        r@.len() == n,
        forall|i: int|
            0 <= i < n ==> #[trigger] r@[i] == (
                row_start(i, n as int, h as int) as u16,
                row_start(i + 1, n as int, h as int) as u16,
            ),
{
    let mut out: Vec<(u16, u16)> = Vec::new();
    let mut i: usize = 0;
    while i < n
        invariant
            n >= 1,
            i <= n,
            out@.len() == i,
            forall|k: int|
                0 <= k < i ==> #[trigger] out@[k] == (
                    row_start(k, n as int, h as int) as u16,
                    row_start(k + 1, n as int, h as int) as u16,
                ),
        decreases n - i,
    {
        let range = row_range(i, n, h);
        out.push(range);
        i = i + 1;
    }
    out
}

/// `0 <= floor(i * h / n) <= h` for `0 <= i <= n`.
proof fn lemma_row_start_bounds(i: int, n: int, h: int)
    requires
        0 <= i <= n,
        n >= 1,
        h >= 0,
    ensures
        0 <= row_start(i, n, h) <= h,
{
    lemma_mul_inequality(i, n, h);
    lemma_mul_inequality(0, i, h);
    lemma_div_is_ordered(0, i * h, n);
    lemma_div_is_ordered(i * h, n * h, n);
    assert(n * h / n == h) by (nonlinear_arith)
        requires
            n >= 1,
    ;
}

/// Row starts never decrease with the worker index.
proof fn lemma_row_start_monotone(i: int, j: int, n: int, h: int)
    requires
        0 <= i <= j,
        n >= 1,
        h >= 0,
    ensures
        row_start(i, n, h) <= row_start(j, n, h),
{
    lemma_mul_inequality(i, j, h);
    lemma_div_is_ordered(i * h, j * h, n);
}

/// A worker whose range holds `row`, searching from worker `k` on.
proof fn lemma_owner_from(k: int, n: int, h: int, row: int) -> (i: int)
    requires
        0 <= k < n,
        h >= 0,
        row_start(k, n, h) <= row < h,
    ensures
        k <= i < n,
        in_assignment(i, n, h, row),
    decreases n - k,
{
    if row < row_start(k + 1, n, h) {
        k
    } else {
        assert(n * h / n == h) by (nonlinear_arith)
            requires
                n >= 1,
        ;
        lemma_owner_from(k + 1, n, h, row)
    }
}

/// The `n` row ranges of an output of `h` rows run from 0 to `h`, each one
/// starting where the previous one ends; every row lies in exactly one of
/// them; and none is empty unless there are more workers than rows.
pub proof fn lemma_partition_exact(n: int, h: int)
    requires
        n >= 1,
        h >= 0,
    ensures
        row_start(0, n, h) == 0,
        row_start(n, n, h) == h,
        forall|i: int| 0 <= i < n ==> row_start(i, n, h) <= #[trigger] row_start(i + 1, n, h),
        forall|row: int| 0 <= row < h ==> #[trigger] assigned(n, h, row),
        forall|i: int, j: int, row: int|
            0 <= i < n && 0 <= j < n && #[trigger] in_assignment(i, n, h, row)
                && #[trigger] in_assignment(j, n, h, row) ==> i == j,
        n <= h ==> forall|i: int| 0 <= i < n ==> row_start(i, n, h) < #[trigger] row_start(i + 1, n, h),
{
    assert(n * h / n == h) by (nonlinear_arith)
        requires
            n >= 1,
    ;
    assert(0 * h / n == 0);
    assert forall|i: int| 0 <= i < n implies row_start(i, n, h) <= #[trigger] row_start(i + 1, n, h) by {
        lemma_row_start_monotone(i, i + 1, n, h);
    }
    assert forall|row: int| 0 <= row < h implies #[trigger] assigned(n, h, row) by {
        let i = lemma_owner_from(0, n, h, row);
    }
    assert forall|i: int, j: int, row: int|
        0 <= i < n && 0 <= j < n && #[trigger] in_assignment(i, n, h, row)
            && #[trigger] in_assignment(j, n, h, row) implies i == j by {
        if i < j {
            lemma_row_start_monotone(i + 1, j, n, h);
        } else if j < i {
            lemma_row_start_monotone(j + 1, i, n, h);
        }
    }
    if n <= h {
        assert forall|i: int| 0 <= i < n implies row_start(i, n, h) < #[trigger] row_start(i + 1, n, h) by {
            lemma_mul_inequality(0, i, h);
            assert((i + 1) * h == i * h + h) by (nonlinear_arith);
            lemma_div_is_ordered(i * h + n, i * h + h, n);
            lemma_div_plus_one(i * h, n);
        }
    }
}

} // verus!
