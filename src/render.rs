use vstd::prelude::*;
use vstd::arithmetic::div_mod::{
    lemma_fundamental_div_mod,
    lemma_fundamental_div_mod_converse_div,
    lemma_fundamental_div_mod_converse_mod,
};

verus! {

/// Row-major index of the pixel in column `i` and row `j`.
pub open spec fn linear_index(i: int, j: int, width: int) -> int {
    j * width + i
}

/// The worker, out of `n_workers`, that renders the pixel with row-major
/// index `p`: workers take pixels in turn, interleaved.
pub open spec fn owner_of(p: int, n_workers: int) -> int {
    p % n_workers
}

/// Row-major index of the `k`-th pixel that `worker` renders.
pub open spec fn kth_pixel(worker: int, n_workers: int, k: int) -> int {
    worker + k * n_workers
}

/// Column and row of the pixel with row-major index `p`.
pub open spec fn pixel_at(p: int, width: int) -> (u32, u32) {
    ((p % width) as u32, (p / width) as u32)
}

/// The worker, out of `n_workers`, that renders the pixel in column `i` and
/// row `j` of an image `width` pixels wide.
pub fn pixel_worker(i: u32, j: u32, width: u32, n_workers: usize) -> (r: usize)
    requires
        n_workers > 0,
        i < width,
    ensures
        r == owner_of(linear_index(i as int, j as int, width as int), n_workers as int),
        r < n_workers,
{
    proof {
        assert(j as int * width as int <= u32::MAX as int * u32::MAX as int) by (nonlinear_arith)
            requires
                j <= u32::MAX,
                width <= u32::MAX,
        ;
    }
    let p: u64 = j as u64 * width as u64 + i as u64;
    (p % (n_workers as u64)) as usize
}

/// The pixels, as (column, row), that worker `worker` of `n_workers`
/// renders in a `width` by `height` image, in the order it renders them:
/// row-major indices `worker`, `worker + n_workers`, `worker + 2 * n_workers`,
/// and so on while they fall inside the image.
pub fn worker_pixels(worker: usize, n_workers: usize, width: u32, height: u32) -> (r: Vec<(u32, u32)>)
    requires
        worker < n_workers,
    ensures
        forall|k: int|
            #![trigger r@[k]]
            #![trigger kth_pixel(worker as int, n_workers as int, k)]
            0 <= k < r@.len() ==> kth_pixel(worker as int, n_workers as int, k) < width as int * height as int
                && r@[k] == pixel_at(kth_pixel(worker as int, n_workers as int, k), width as int),
        kth_pixel(worker as int, n_workers as int, r@.len() as int) >= width as int * height as int,
{
    proof {
        assert(width as int * height as int <= u32::MAX as int * u32::MAX as int) by (nonlinear_arith)
            requires
                height <= u32::MAX,
                width <= u32::MAX,
        ;
    }
    let total: u64 = width as u64 * height as u64;
    let mut out: Vec<(u32, u32)> = Vec::new();
    if (worker as u64) >= total {
        return out;
    }
    assert(width > 0) by {
        if width == 0 {
            assert(width as int * height as int == 0);
        }
    }
    let n: u64 = n_workers as u64;
    let mut idx: u64 = worker as u64;
    while idx < total
        invariant
            total == width as int * height as int,
            n == n_workers,
            n > 0,
            width > 0,
            idx == kth_pixel(worker as int, n_workers as int, out@.len() as int),
            forall|k: int|
                #![trigger out@[k]]
                #![trigger kth_pixel(worker as int, n_workers as int, k)]
                0 <= k < out@.len() ==> kth_pixel(worker as int, n_workers as int, k) < width as int * height as int
                    && out@[k] == pixel_at(kth_pixel(worker as int, n_workers as int, k), width as int),
        decreases total - idx,
    {
        proof {
            lemma_pixel_in_image(idx as int, width as int, height as int);
        }
        let ghost before = out@;
        let item = ((idx % width as u64) as u32, (idx / width as u64) as u32);
        assert(item == pixel_at(idx as int, width as int));
        out.push(item);
        proof {
            assert forall|k: int|
                #![trigger out@[k]]
                #![trigger kth_pixel(worker as int, n_workers as int, k)]
                0 <= k < out@.len() implies (kth_pixel(
                worker as int,
                n_workers as int,
                k,
            ) < width as int * height as int && out@[k] == pixel_at(
                kth_pixel(worker as int, n_workers as int, k),
                width as int,
            )) by {
                if k < before.len() {
                    assert(out@[k] == before[k]);
                } else {
                    assert(k == before.len());
                    assert(out@[k] == item);
                }
            }
            assert(kth_pixel(worker as int, n_workers as int, out@.len() as int)
                == idx + n) by (nonlinear_arith)
                requires
                    idx == kth_pixel(worker as int, n_workers as int, out@.len() - 1),
                    n == n_workers,
            ;
        }
        if total - idx <= n {
            return out;
        }
        idx = idx + n;
    }
    out
}

proof fn lemma_pixel_in_image(p: int, width: int, height: int)
    requires
        0 <= p < width as int * height as int,
        width > 0,
    ensures
        0 <= p % width < width,
        0 <= p / width < height,
{
    lemma_fundamental_div_mod(p, width);
    if p / width >= height {
        assert(width * (p / width) >= width * height) by (nonlinear_arith)
            requires
                p / width >= height,
                width > 0,
        ;
    }
    if p / width < 0 {
        assert(width * (p / width) <= -width) by (nonlinear_arith)
            requires
                p / width < 0,
                width > 0,
        ;
    }
}

/// Every pixel of the image is rendered by exactly one worker: the pixel
/// with row-major index `p` is the `p / n_workers`-th pixel of worker
/// `p % n_workers` and of no other.
pub proof fn lemma_each_pixel_has_one_worker(p: int, n_workers: int, worker: int, k: int)
    requires
        0 <= p,
        n_workers > 0,
        0 <= worker < n_workers,
        0 <= k,
    ensures
        0 <= owner_of(p, n_workers) < n_workers,
        kth_pixel(owner_of(p, n_workers), n_workers, p / n_workers) == p,
        kth_pixel(worker, n_workers, k) == p ==> worker == owner_of(p, n_workers) && k == p
            / n_workers,
{
    lemma_fundamental_div_mod(p, n_workers);
    assert(n_workers * (p / n_workers) == (p / n_workers) * n_workers) by (nonlinear_arith);
    if kth_pixel(worker, n_workers, k) == p {
        lemma_fundamental_div_mod_converse_mod(p, n_workers, k, worker);
        lemma_fundamental_div_mod_converse_div(p, n_workers, k, worker);
    }
}

} // verus!
