//! Partition of an image into tiles no larger than the device texture limit.
use vstd::arithmetic::div_mod::{lemma_fundamental_div_mod, lemma_fundamental_div_mod_converse};
use vstd::prelude::*;

verus! {

/// Axis-aligned region of the full image covered by one tile.
#[derive(Clone, Copy, Debug, PartialEq, Eq, Structural)]
pub struct TileRect {
    pub x: u32,
    pub y: u32,
    pub width: u32,
    pub height: u32,
}

impl TileRect {
    /// Offset of this tile's first pixel in a row-major RGBA8 buffer of an image
    /// `image_width` pixels wide.
    pub fn byte_offset(&self, image_width: u32) -> (r: usize)
        requires
            (self.y * image_width + self.x) * 4 <= usize::MAX,
        ensures
            r == (self.y * image_width + self.x) * 4,
    {
        assert(self.y as int * image_width as int <= usize::MAX) by (nonlinear_arith)
            requires
                (self.y * image_width + self.x) * 4 <= usize::MAX,
        ;
        ((self.y as usize) * (image_width as usize) + self.x as usize) * 4
    }

    pub open spec fn contains(self, px: int, py: int) -> bool {
        self.x <= px < self.x + self.width && self.y <= py < self.y + self.height
    }

    /// The two rectangles share no pixel.
    pub open spec fn disjoint(self, other: TileRect) -> bool {
        self.x + self.width <= other.x || other.x + other.width <= self.x || self.y
            + self.height <= other.y || other.y + other.height <= self.y
    }
}

/// `ceil(len / m)`: how many tiles of side `m` cover `len` pixels.
pub open spec fn tiles_along(len: int, m: int) -> int {
    if len % m == 0 {
        len / m
    } else {
        len / m + 1
    }
}

pub open spec fn spec_tile_count(w: u32, h: u32, m: u32) -> int {
    tiles_along(w as int, m as int) * tiles_along(h as int, m as int)
}

pub open spec fn min_int(a: int, b: int) -> int {
    if a <= b {
        a
    } else {
        b
    }
}

/// The `i`-th tile of the grid, in row-major order (rows outer, columns inner),
/// clipped to the image bounds.
pub open spec fn spec_tile(w: u32, h: u32, m: u32, i: int) -> TileRect {
    let cols = tiles_along(w as int, m as int);
    let tx = (i % cols) * m;
    let ty = (i / cols) * m;
    TileRect {
        x: tx as u32,
        y: ty as u32,
        width: min_int(w - tx, m as int) as u32,
        height: min_int(h - ty, m as int) as u32,
    }
}

proof fn lemma_tiles_along(len: int, m: int)
    requires
        len >= 0,
        m >= 1,
    ensures
        tiles_along(len, m) >= 0,
        forall|k: int| 0 <= k < tiles_along(len, m) ==> #[trigger] (k * m) < len,
        forall|p: int| 0 <= p < len ==> #[trigger] (p / m) < tiles_along(len, m),
{
    lemma_fundamental_div_mod(len, m);
    assert(len / m >= 0) by (nonlinear_arith)
        requires
            len >= 0,
            m >= 1,
    ;
    assert forall|k: int| 0 <= k < tiles_along(len, m) implies #[trigger] (k * m) < len by {
        if len % m == 0 {
            assert(k * m < len) by (nonlinear_arith)
                requires
                    k < len / m,
                    len == m * (len / m) + len % m,
                    len % m == 0,
                    m >= 1,
            ;
        } else {
            assert(k * m < len) by (nonlinear_arith)
                requires
                    k <= len / m,
                    len == m * (len / m) + len % m,
                    len % m > 0,
                    m >= 1,
            ;
        }
    }
    assert forall|p: int| 0 <= p < len implies #[trigger] (p / m) < tiles_along(len, m) by {
        lemma_fundamental_div_mod(p, m);
        assert(p / m <= len / m) by (nonlinear_arith)
            requires
                0 <= p < len,
                m >= 1,
                p == m * (p / m) + p % m,
                len == m * (len / m) + len % m,
                0 <= p % m < m,
                0 <= len % m < m,
        ;
        if len % m == 0 {
            assert(p / m < len / m) by (nonlinear_arith)
                requires
                    p < len,
                    m >= 1,
                    p == m * (p / m) + p % m,
                    len == m * (len / m),
                    0 <= p % m < m,
            ;
        }
    }
}

/// Some tile of the grid holds pixel `(px, py)`.
pub open spec fn covered_by_grid(w: u32, h: u32, m: u32, px: int, py: int) -> bool {
    exists|i: int|
        0 <= i < spec_tile_count(w, h, m) && #[trigger] spec_tile(w, h, m, i).contains(px, py)
}

/// `ceil(len / m)`, computed without overflow.
pub fn ceil_div(len: u32, m: u32) -> (r: u32)
    requires
        m >= 1,
    ensures
        r == tiles_along(len as int, m as int),
{
    let q: u32 = len / m;
    if len % m == 0 {
        q
    } else {
        assert(q < u32::MAX) by (nonlinear_arith)
            requires
                q == len / m,
                len % m != 0,
                m >= 1,
                len <= u32::MAX,
        ;
        q + 1
    }
}

/// Splits a `width` x `height` image into tiles of at most `max_dim` pixels per side.
pub fn tile_grid(width: u32, height: u32, max_dim: u32) -> (r: Vec<TileRect>)
    requires
        max_dim >= 1,
    ensures
        r@.len() == spec_tile_count(width, height, max_dim),
        forall|i: int| 0 <= i < r@.len() ==> r@[i] == spec_tile(width, height, max_dim, i),
{
    let cols: u32 = ceil_div(width, max_dim);
    let rows: u32 = ceil_div(height, max_dim);
    proof {
        lemma_tiles_along(width as int, max_dim as int);
        lemma_tiles_along(height as int, max_dim as int);
        assert(cols == tiles_along(width as int, max_dim as int));
        assert(rows == tiles_along(height as int, max_dim as int));
    }
    let ghost total = spec_tile_count(width, height, max_dim);
    let mut tiles: Vec<TileRect> = Vec::new();
    let mut row: u32 = 0;
    while row < rows
        invariant
            cols == tiles_along(width as int, max_dim as int),
            rows == tiles_along(height as int, max_dim as int),
            total == cols * rows,
            max_dim >= 1,
            row <= rows,
            tiles@.len() == row * cols,
            forall|i: int|
                0 <= i < tiles@.len() ==> tiles@[i] == spec_tile(width, height, max_dim, i),
            forall|k: int| 0 <= k < cols ==> #[trigger] (k * max_dim) < width,
            forall|k: int| 0 <= k < rows ==> #[trigger] (k * max_dim) < height,
        decreases rows - row,
    {
        let mut col: u32 = 0;
        assert(row * max_dim < height);
        let ty: u32 = row * max_dim;
        let th: u32 = if height - ty < max_dim {
            height - ty
        } else {
            max_dim
        };
        while col < cols
            invariant
                cols == tiles_along(width as int, max_dim as int),
                rows == tiles_along(height as int, max_dim as int),
                total == cols * rows,
                    max_dim >= 1,
                row < rows,
                col <= cols,
                ty == row * max_dim,
                th == min_int(height - ty, max_dim as int),
                tiles@.len() == row * cols + col,
                forall|i: int|
                    0 <= i < tiles@.len() ==> tiles@[i] == spec_tile(width, height, max_dim, i),
                forall|k: int| 0 <= k < cols ==> #[trigger] (k * max_dim) < width,
            decreases cols - col,
        {
            assert(col * max_dim < width);
            let tx: u32 = col * max_dim;
            let tw: u32 = if width - tx < max_dim {
                width - tx
            } else {
                max_dim
            };
            let ghost i = row * cols + col;
            proof {
                lemma_fundamental_div_mod_converse(i, cols as int, row as int, col as int);
            }
            tiles.push(TileRect { x: tx, y: ty, width: tw, height: th });
            col = col + 1;
        }
        assert(tiles@.len() == (row + 1) * cols) by (nonlinear_arith)
            requires
                tiles@.len() == row * cols + cols,
        ;
        assert((row + 1) * cols <= total) by (nonlinear_arith)
            requires
                row < rows,
                total == cols * rows,
        ;
        row = row + 1;
    }
    assert(tiles@.len() == total) by (nonlinear_arith)
        requires
            tiles@.len() == rows * cols,
            total == cols * rows,
    ;
    tiles
}

/// The tile grid is an exact partition of the image: every tile lies inside the
/// image, is non-empty and no wider or taller than `max_dim`; every pixel of the
/// image lies in some tile; and no two distinct tiles share a pixel.
pub proof fn lemma_tile_grid_partition(width: u32, height: u32, max_dim: u32)
    requires
        max_dim >= 1,
    ensures
        forall|i: int|
            0 <= i < spec_tile_count(width, height, max_dim) ==> {
                let t = #[trigger] spec_tile(width, height, max_dim, i);
                &&& 1 <= t.width <= max_dim
                &&& 1 <= t.height <= max_dim
                &&& t.x + t.width <= width
                &&& t.y + t.height <= height
            },
        forall|px: int, py: int|
            0 <= px < width && 0 <= py < height ==> #[trigger] covered_by_grid(
                width,
                height,
                max_dim,
                px,
                py,
            ),
        forall|i: int, j: int|
            0 <= i < spec_tile_count(width, height, max_dim) && 0 <= j < spec_tile_count(
                width,
                height,
                max_dim,
            ) && i != j ==> #[trigger] spec_tile(width, height, max_dim, i).disjoint(
                #[trigger] spec_tile(width, height, max_dim, j),
            ),
{
    let m = max_dim as int;
    let cols = tiles_along(width as int, m);
    let rows = tiles_along(height as int, m);
    let n = spec_tile_count(width, height, max_dim);
    lemma_tiles_along(width as int, m);
    lemma_tiles_along(height as int, m);
    assert forall|i: int| 0 <= i < n implies {
        let t = #[trigger] spec_tile(width, height, max_dim, i);
        &&& 1 <= t.width <= max_dim
        &&& 1 <= t.height <= max_dim
        &&& t.x + t.width <= width
        &&& t.y + t.height <= height
    } by {
        lemma_grid_index(i, cols, rows);
        assert((i % cols) * m < width);
        assert((i / cols) * m < height);
        assert((i % cols) * m >= 0 && (i / cols) * m >= 0) by (nonlinear_arith)
            requires
                i % cols >= 0,
                i / cols >= 0,
                m >= 1,
        ;
    }
    assert forall|px: int, py: int| 0 <= px < width && 0 <= py < height implies #[trigger] covered_by_grid(
        width,
        height,
        max_dim,
        px,
        py,
    ) by {
        let col = px / m;
        let row = py / m;
        assert(col < cols);
        assert(row < rows);
        lemma_fundamental_div_mod(px, m);
        lemma_fundamental_div_mod(py, m);
        let i = row * cols + col;
        assert(0 <= col && 0 <= row) by (nonlinear_arith)
            requires
                px >= 0,
                py >= 0,
                m >= 1,
                col == px / m,
                row == py / m,
        ;
        assert(0 <= i < n) by (nonlinear_arith)
            requires
                0 <= col < cols,
                0 <= row < rows,
                i == row * cols + col,
                n == cols * rows,
        ;
        lemma_fundamental_div_mod_converse(i, cols, row, col);
        assert(col * m < width);
        assert(row * m < height);
        assert(col * m <= px < col * m + m) by (nonlinear_arith)
            requires
                px == m * col + px % m,
                0 <= px % m < m,
        ;
        assert(row * m <= py < row * m + m) by (nonlinear_arith)
            requires
                py == m * row + py % m,
                0 <= py % m < m,
        ;
        assert(spec_tile(width, height, max_dim, i).contains(px, py));
    }
    assert forall|i: int, j: int| 0 <= i < n && 0 <= j < n && i != j implies #[trigger] spec_tile(
        width,
        height,
        max_dim,
        i,
    ).disjoint(#[trigger] spec_tile(width, height, max_dim, j)) by {
        lemma_grid_index(i, cols, rows);
        lemma_grid_index(j, cols, rows);
        let ci = i % cols;
        let cj = j % cols;
        let ri = i / cols;
        let rj = j / cols;
        assert(ci * m < width && cj * m < width && ri * m < height && rj * m < height);
        if ci != cj {
            if ci < cj {
                lemma_step_le(ci, cj, m);
            } else {
                lemma_step_le(cj, ci, m);
            }
        } else {
            assert(ri != rj);
            if ri < rj {
                lemma_step_le(ri, rj, m);
            } else {
                lemma_step_le(rj, ri, m);
            }
        }
    }
}

proof fn lemma_step_le(a: int, b: int, m: int)
    requires
        0 <= a < b,
        m >= 1,
    ensures
        a * m + m <= b * m,
        a * m >= 0,
{
    assert(a * m + m <= b * m && a * m >= 0) by (nonlinear_arith)
        requires
            0 <= a < b,
            m >= 1,
    ;
}

proof fn lemma_grid_index(i: int, cols: int, rows: int)
    requires
        0 <= i < cols * rows,
        cols >= 0,
        rows >= 0,
    ensures
        cols >= 1,
        0 <= i % cols < cols,
        0 <= i / cols < rows,
        i == cols * (i / cols) + i % cols,
{
    if cols == 0 {
        assert(cols * rows == 0);
    }
    lemma_fundamental_div_mod(i, cols);
    assert(0 <= i / cols < rows) by (nonlinear_arith)
        requires
            0 <= i < cols * rows,
            cols >= 1,
            i == cols * (i / cols) + i % cols,
            0 <= i % cols < cols,
    ;
}

} // verus!
