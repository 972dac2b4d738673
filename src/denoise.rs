//! Geometry of the edge-aware denoiser: which pixels around a given one take
//! part in its weighted average, and where each one's spatial weight sits in
//! the kernel table.
use vstd::prelude::*;
use crate::image::MAX_PIXELS;

verus! {

/// Radius of the filter's square neighbourhood.
pub const KERNEL_RADIUS: u32 = 2;

/// Side of the filter's square neighbourhood and of its kernel table.
pub const KERNEL_SIZE: u32 = 5;

/// One pixel of a neighbourhood: its flat index in the image, and the row and
/// column of its spatial weight in the kernel table.
#[derive(Debug, Clone, Copy, PartialEq, Eq, Structural)]
pub struct Neighbor {
    pub index: u32,
    pub kernel_row: u32,
    pub kernel_col: u32,
}

/// Whether the kernel cell (`row`, `col`) centred on pixel (`x`, `y`) falls
/// inside a `width` by `height` image.
pub open spec fn in_image(width: u32, height: u32, x: u32, y: u32, row: int, col: int) -> bool {
    &&& x + col >= KERNEL_RADIUS
    &&& y + row >= KERNEL_RADIUS
    &&& x + col - KERNEL_RADIUS < width
    &&& y + row - KERNEL_RADIUS < height
}

/// The neighbour at kernel cell (`row`, `col`) of pixel (`x`, `y`).
pub open spec fn neighbor_at(width: u32, x: u32, y: u32, row: int, col: int) -> Neighbor {
    Neighbor {
        index: ((y + row - KERNEL_RADIUS) * width + (x + col - KERNEL_RADIUS)) as u32,
        kernel_row: row as u32,
        kernel_col: col as u32,
    }
}

/// The neighbours among the first `n` kernel cells, in row-major order,
/// leaving out the cells outside the image.
pub open spec fn neighbors_upto(width: u32, height: u32, x: u32, y: u32, n: nat) -> Seq<Neighbor>
    decreases n,
{
    if n == 0 {
        Seq::empty()
    } else {
        let prev = neighbors_upto(width, height, x, y, (n - 1) as nat);
        let row = (n - 1) / KERNEL_SIZE as int;
        let col = (n - 1) % KERNEL_SIZE as int;
        if in_image(width, height, x, y, row, col) {
            prev.push(neighbor_at(width, x, y, row, col))
        } else {
            prev
        }
    }
}

/// The whole neighbourhood of pixel (`x`, `y`).
pub open spec fn neighborhood(width: u32, height: u32, x: u32, y: u32) -> Seq<Neighbor> {
    neighbors_upto(width, height, x, y, (KERNEL_SIZE * KERNEL_SIZE) as nat)
}

/// Squared distance of kernel cell (`row`, `col`) from the kernel's centre.
pub open spec fn kernel_distance_spec(row: int, col: int) -> int {
    (row - KERNEL_RADIUS) * (row - KERNEL_RADIUS) + (col - KERNEL_RADIUS) * (col - KERNEL_RADIUS)
}

/// Computes the squared distance of kernel cell (`row`, `col`) from the
/// kernel's centre; the spatial weight of the cell is a Gaussian of it.
pub fn kernel_distance(row: u32, col: u32) -> (r: u32)
    requires
        row < KERNEL_SIZE,
        col < KERNEL_SIZE,
    ensures
        r == kernel_distance_spec(row as int, col as int),
{
    let dy: u32 = if row >= KERNEL_RADIUS {
        row - KERNEL_RADIUS
    } else {
        KERNEL_RADIUS - row
    };
    let dx: u32 = if col >= KERNEL_RADIUS {
        col - KERNEL_RADIUS
    } else {
        KERNEL_RADIUS - col
    };
    assert(dy * dy + dx * dx == kernel_distance_spec(row as int, col as int) && dy * dy <= 4
        && dx * dx <= 4) by (nonlinear_arith)
        requires
            dy == row - 2 || dy == 2 - row,
            dx == col - 2 || dx == 2 - col,
            dy <= 2,
            dx <= 2,
    ;
    dy * dy + dx * dx
}

/// Lists the pixels of the neighbourhood of pixel (`x`, `y`) of a `width` by
/// `height` image: the cells of the 5 by 5 square around it that fall inside
/// the image, in row-major order.
pub fn neighbors(width: u32, height: u32, x: u32, y: u32) -> (r: Vec<Neighbor>)
    requires
        x < width,
        y < height,
        width * height <= MAX_PIXELS,
    ensures
        r@ == neighborhood(width, height, x, y),
        forall|k: int|
            0 <= k < r@.len() ==> (#[trigger] r@[k]).index < width * height && r@[k].kernel_row
                < KERNEL_SIZE && r@[k].kernel_col < KERNEL_SIZE,
{
    let mut out: Vec<Neighbor> = Vec::new();
    let n: u32 = KERNEL_SIZE * KERNEL_SIZE;
    let mut k: u32 = 0;
    while k < n
        invariant
            k <= n,
            n == KERNEL_SIZE * KERNEL_SIZE,
            x < width,
            y < height,
            width * height <= MAX_PIXELS,
            out@ == neighbors_upto(width, height, x, y, k as nat),
            forall|j: int|
                0 <= j < out@.len() ==> (#[trigger] out@[j]).index < width * height
                    && out@[j].kernel_row < KERNEL_SIZE && out@[j].kernel_col < KERNEL_SIZE,
        decreases n - k,
    {
        let row: u32 = k / KERNEL_SIZE;
        let col: u32 = k % KERNEL_SIZE;
        let cx: u64 = x as u64 + col as u64;
        let cy: u64 = y as u64 + row as u64;
        if cx >= KERNEL_RADIUS as u64 && cy >= KERNEL_RADIUS as u64 && cx - (KERNEL_RADIUS as u64)
            < width as u64 && cy - (KERNEL_RADIUS as u64) < height as u64 {
            let nx: u32 = (cx - KERNEL_RADIUS as u64) as u32;
            let ny: u32 = (cy - KERNEL_RADIUS as u64) as u32;
            assert(ny * width + nx < width * height) by (nonlinear_arith)
                requires
                    nx < width,
                    ny < height,
            ;
            out.push(Neighbor { index: ny * width + nx, kernel_row: row, kernel_col: col });
        }
        k = k + 1;
    }
    out
}

/// A neighbour listed among the first `n` cells stays listed among the first
/// `m`, for any `m >= n`.
proof fn lemma_neighbors_grow(width: u32, height: u32, x: u32, y: u32, n: nat, m: nat, e: Neighbor)
    requires
        n <= m,
        neighbors_upto(width, height, x, y, n).contains(e),
    ensures
        neighbors_upto(width, height, x, y, m).contains(e),
    decreases m - n,
{
    if n < m {
        let s = neighbors_upto(width, height, x, y, n);
        let t = neighbors_upto(width, height, x, y, n + 1);
        let i = choose|i: int| 0 <= i < s.len() && s[i] == e;
        assert(t[i] == e);
        lemma_neighbors_grow(width, height, x, y, n + 1, m, e);
    }
}

/// A pixel always belongs to its own neighbourhood, at the kernel's centre,
/// so the denoiser's total weight for it is never zero.
pub proof fn lemma_center_in_neighborhood(width: u32, height: u32, x: u32, y: u32)
    requires
        x < width,
        y < height,
        width * height <= MAX_PIXELS,
    ensures
        neighborhood(width, height, x, y).contains(
            Neighbor { index: (y * width + x) as u32, kernel_row: KERNEL_RADIUS, kernel_col: KERNEL_RADIUS },
        ),
{
    let c = Neighbor { index: (y * width + x) as u32, kernel_row: KERNEL_RADIUS, kernel_col: KERNEL_RADIUS };
    let s = neighbors_upto(width, height, x, y, 13);
    assert(neighbor_at(width, x, y, 2, 2) == c);
    assert(s[s.len() - 1] == c);
    lemma_neighbors_grow(width, height, x, y, 13, 25, c);
}

} // verus!
