//! The camera: an eye ray, an up vector, a field of view, a resolution,
//! and the sampling parameters. A pixel coordinate maps to a world-space
//! ray through an orthonormal basis built from the look direction. The
//! row-band partition used by the parallel scheduler also lives here,
//! with the proof that the bands tile the image exactly.

use vstd::prelude::*;
use crate::fx::{add_s, div_s, mul_s, sub_s, fx_add, fx_div, fx_mul, fx_sub, ONE};
use crate::ray::Ray;
use crate::scene::{scene_wf, Scene};
use crate::trig::{tan_s, fx_tan, RAD_PER_DEG};
use crate::vec3::{cross_s, unit_s, vnonneg_s, vsub_s, Vec3};

verus! {

/// A camera: eye ray, up vector, field of view in degrees, resolution
/// in pixels, and sampling parameters (samples per pixel, branches per
/// bounce, maximum bounce depth).
#[derive(Clone, Copy, Debug, PartialEq, Eq)]
pub struct Camera {
    pub ray: Ray,
    pub up: Vec3,
    pub fov: i64,
    pub reso: (usize, usize),
    pub aa: usize,
    pub branch: usize,
    pub bounces: usize,
}

/// A usable camera: at least one pixel each way and at least one sample
/// and branch, with counts small enough that scaling them by the
/// fixed-point unit cannot overflow a 64-bit value.
pub open spec fn camera_wf(c: Camera) -> bool {
    &&& 1 <= c.reso.0 <= 9_000_000_000_000
    &&& 1 <= c.reso.1 <= 9_000_000_000_000
    &&& 1 <= c.aa <= 9_000_000_000_000
    &&& 1 <= c.branch <= 9_000_000_000_000
}

/// The world-space ray for a (jittered) pixel coordinate: normalize the
/// coordinate, recenter it, aim down the focal axis derived from the
/// field of view, and rotate through the camera basis. (Opaque so that
/// contracts quantifying over many rays stay tractable; reveal it to
/// read the construction.)
#[verifier::opaque]
pub open spec fn make_ray_s(c: Camera, x: int, y: int) -> Ray {
    let w = c.reso.0 * (ONE as int);
    let h = c.reso.1 * (ONE as int);
    let ratio = div_s(w, h);
    let u = sub_s(mul_s(div_s(x, w), ratio), mul_s(ratio, 500_000));
    let v = sub_s(div_s(y, h), 500_000);
    let rad = mul_s(c.fov as int, RAD_PER_DEG as int);
    let z = div_s(ONE as int, tan_s(div_s(rad, 2_000_000)));
    let dir = unit_s(Vec3 { x: u as i64, y: v as i64, z: sub_s(0, z) as i64 });
    let f = c.ray.direction;
    let s = unit_s(cross_s(f, c.up));
    let uvec = cross_s(s, f);
    Ray {
        origin: c.ray.origin,
        direction: Vec3 {
            x: add_s(
                add_s(mul_s(dir.x as int, s.x as int), mul_s(dir.y as int, uvec.x as int)),
                mul_s(dir.z as int, sub_s(0, f.x as int)),
            ) as i64,
            y: add_s(
                add_s(mul_s(dir.x as int, s.y as int), mul_s(dir.y as int, uvec.y as int)),
                mul_s(dir.z as int, sub_s(0, f.y as int)),
            ) as i64,
            z: add_s(
                add_s(mul_s(dir.x as int, s.z as int), mul_s(dir.y as int, uvec.z as int)),
                mul_s(dir.z as int, sub_s(0, f.z as int)),
            ) as i64,
        },
    }
}

impl Camera {
    /// The camera at `from` looking toward `to`.
    pub fn new(
        from: Vec3,
        to: Vec3,
        up: Vec3,
        fov: i64,
        reso: (usize, usize),
        aa: usize,
        branch: usize,
        bounces: usize,
    ) -> (r: Camera)
        ensures
            r == (Camera {
                ray: Ray { origin: from, direction: unit_s(vsub_s(to, from)) },
                up,
                fov,
                reso,
                aa,
                branch,
                bounces,
            }),
    {
        let f = to.sub(&from).unit();
        Camera { ray: Ray::new(from, f), up, fov, reso, aa, branch, bounces }
    }

    /// Image width in pixels.
    pub fn width(&self) -> (r: usize)
        ensures
            r == self.reso.0,
    {
        self.reso.0
    }

    /// Image height in pixels.
    pub fn height(&self) -> (r: usize)
        ensures
            r == self.reso.1,
    {
        self.reso.1
    }

    /// The aspect ratio as a fixed-point scalar.
    fn ratio(&self) -> (r: i64)
        requires
            camera_wf(*self),
        ensures
            r as int == div_s(self.reso.0 * (ONE as int), self.reso.1 * (ONE as int)),
    {
        fx_div((self.reso.0 as i64) * ONE, (self.reso.1 as i64) * ONE)
    }

    /// The world-space ray for a pixel coordinate (already jittered by
    /// the caller's sampling noise).
    pub fn make_ray(&self, x: i64, y: i64) -> (r: Ray)
        requires
            camera_wf(*self),
        ensures
            r == make_ray_s(*self, x as int, y as int),
    {
        proof {
            reveal(make_ray_s);
        }
        let wf = (self.reso.0 as i64) * ONE;
        let hf = (self.reso.1 as i64) * ONE;
        let ratio = self.ratio();
        let u = fx_sub(fx_mul(fx_div(x, wf), ratio), fx_mul(ratio, 500_000));
        let v = fx_sub(fx_div(y, hf), 500_000);
        let rad = fx_mul(self.fov, RAD_PER_DEG);
        let z = fx_div(ONE, fx_tan(fx_div(rad, 2_000_000)));
        let dir = Vec3::new(u, v, fx_sub(0, z)).unit();
        let f = self.ray.direction;
        let s = f.cross(&self.up).unit();
        let uvec = s.cross(&f);
        Ray::new(
            self.ray.origin,
            Vec3::new(
                fx_add(
                    fx_add(fx_mul(dir.x, s.x), fx_mul(dir.y, uvec.x)),
                    fx_mul(dir.z, fx_sub(0, f.x)),
                ),
                fx_add(
                    fx_add(fx_mul(dir.x, s.y), fx_mul(dir.y, uvec.y)),
                    fx_mul(dir.z, fx_sub(0, f.y)),
                ),
                fx_add(
                    fx_add(fx_mul(dir.x, s.z), fx_mul(dir.y, uvec.z)),
                    fx_mul(dir.z, fx_sub(0, f.z)),
                ),
            ),
        )
    }
    /// Render the contiguous row band `[start, stop)` into a local
    /// buffer: rows top to bottom within the band, pixels left to
    /// right, each pixel averaged over the camera's jittered samples.
    /// The buffer is rectangular — one row per band row, one pixel per
    /// column — band row `k` holds the sampler's output for pixel row
    /// `height - (start + k)` (the vertical flip), column for column,
    /// and all radiance is non-negative in a well-formed scene.
    pub fn section(
        &self,
        scene: &Scene,
        rng: &mut rand::rngs::StdRng,
        start: usize,
        stop: usize,
    ) -> (r: Vec<Vec<Vec3>>)
        requires
            camera_wf(*self),
            start <= stop <= self.reso.1,
        ensures
            r@.len() == stop - start,
            forall|i: int| 0 <= i < r@.len() ==> (#[trigger] r@[i])@.len() == self.reso.0,
            scene_wf(*scene) ==> forall|i: int, j: int|
                0 <= i < r@.len() && 0 <= j < r@[i]@.len() ==> vnonneg_s(#[trigger] r@[i]@[j]),
            forall|k: int, x: int|
                0 <= k < r@.len() && 0 <= x < r@[k]@.len() ==> crate::render::sample_form(
                    *scene,
                    *self,
                    x * (ONE as int),
                    (self.reso.1 - (start + k)) * (ONE as int),
                    #[trigger] r@[k]@[x],
                ),
    {
        let mut image: Vec<Vec<Vec3>> = Vec::new();
        let mut y: usize = start;
        while y < stop
            invariant
                camera_wf(*self),
                start <= y <= stop <= self.reso.1,
                image@.len() == y - start,
                forall|i: int| 0 <= i < image@.len() ==> (#[trigger] image@[i])@.len()
                    == self.reso.0,
                scene_wf(*scene) ==> forall|i: int, j: int|
                    0 <= i < image@.len() && 0 <= j < image@[i]@.len() ==> vnonneg_s(
                        #[trigger] image@[i]@[j],
                    ),
                forall|k: int, x: int|
                    0 <= k < image@.len() && 0 <= x < image@[k]@.len()
                        ==> crate::render::sample_form(
                        *scene,
                        *self,
                        x * (ONE as int),
                        (self.reso.1 - (start + k)) * (ONE as int),
                        #[trigger] image@[k]@[x],
                    ),
            decreases stop - y,
        {
            let mut row: Vec<Vec3> = Vec::new();
            let mut x: usize = 0;
            while x < self.reso.0
                invariant
                    camera_wf(*self),
                    y < self.reso.1,
                    row@.len() == x,
                    x <= self.reso.0,
                    scene_wf(*scene) ==> forall|j: int|
                        0 <= j < row@.len() ==> vnonneg_s(#[trigger] row@[j]),
                    forall|j: int|
                        0 <= j < row@.len() ==> crate::render::sample_form(
                            *scene,
                            *self,
                            j * (ONE as int),
                            (self.reso.1 - y) * (ONE as int),
                            #[trigger] row@[j],
                        ),
                decreases self.reso.0 - x,
            {
                let u = (x as i64) * crate::fx::ONE;
                let v = ((self.reso.1 - y) as i64) * crate::fx::ONE;
                let pixel = crate::render::sample(scene, self, rng, u, v);
                row.push(pixel);
                x = x + 1;
            }
            image.push(row);
            y = y + 1;
        }
        image
    }
}

/// Where a worker's row band begins: `height * worker / workers`.
pub open spec fn row_start_s(height: int, workers: int, worker: int) -> int {
    height * worker / workers
}

/// The contiguous row band `[start, stop)` assigned to one worker.
/// Bands of consecutive workers share a boundary, so the bands tile
/// `[0, height)` exactly.
pub fn worker_rows(height: usize, workers: usize, worker: usize) -> (r: (usize, usize))
    requires
        workers >= 1,
        worker < workers,
        height * workers <= usize::MAX,
    ensures
        r.0 == row_start_s(height as int, workers as int, worker as int),
        r.1 == row_start_s(height as int, workers as int, worker as int + 1),
        r.0 <= r.1 <= height,
{
    proof {
        assert(height * worker <= height * workers) by (nonlinear_arith)
            requires
                worker <= workers,
                height >= 0,
        ;
        assert(height * (worker + 1) <= height * workers) by (nonlinear_arith)
            requires
                worker + 1 <= workers,
                height >= 0,
        ;
        assert(height * worker <= height * (worker + 1)) by (nonlinear_arith)
            requires
                height >= 0,
        ;
        vstd::arithmetic::div_mod::lemma_div_is_ordered(
            height * worker,
            height * (worker + 1),
            workers as int,
        );
        vstd::arithmetic::div_mod::lemma_div_is_ordered(
            height * (worker + 1),
            height * workers,
            workers as int,
        );
        vstd::arithmetic::div_mod::lemma_div_multiples_vanish(
            height as int,
            workers as int,
        );
        assert((height * workers) as int == (workers as int) * (height as int))
            by (nonlinear_arith);
    }
    let start = height * worker / workers;
    let stop = height * (worker + 1) / workers;
    (start, stop)
}

/// Row bands are ordered: a later worker never starts before an earlier
/// worker's band ends.
pub proof fn lemma_rows_ordered(height: int, workers: int, i: int, j: int)
    requires
        height >= 0,
        workers >= 1,
        0 <= i <= j,
    ensures
        row_start_s(height, workers, i) <= row_start_s(height, workers, j),
{
    assert(height * i <= height * j) by (nonlinear_arith)
        requires
            i <= j,
            height >= 0,
    ;
    vstd::arithmetic::div_mod::lemma_div_is_ordered(height * i, height * j, workers);
}

/// Every row of the image lies in exactly one worker's band: the bands
/// cover `[0, height)` with no gap and no overlap, whatever the
/// resolution and worker count.
pub proof fn lemma_rows_partition(height: int, workers: int, y: int)
    requires
        workers >= 1,
        0 <= y < height,
    ensures
        exists|i: int|
            0 <= i < workers && #[trigger] row_start_s(height, workers, i) <= y < row_start_s(
                height,
                workers,
                i + 1,
            ),
        forall|i: int, j: int|
            (0 <= i && 0 <= j && #[trigger] row_start_s(height, workers, i) <= y < row_start_s(
                height,
                workers,
                i + 1,
            ) && #[trigger] row_start_s(height, workers, j) <= y < row_start_s(
                height,
                workers,
                j + 1,
            )) ==> i == j,
{
    let n = y * workers + workers - 1;
    let k = n / height;
    vstd::arithmetic::div_mod::lemma_fundamental_div_mod(n, height);
    let rem = n % height;
    assert(n == height * k + rem);
    assert(0 <= rem < height);
    // k is in range.
    assert(n >= 0) by (nonlinear_arith)
        requires
            y >= 0,
            workers >= 1,
            n == y * workers + workers - 1,
    ;
    assert(k >= 0) by (nonlinear_arith)
        requires
            n >= 0,
            height >= 1,
            n == height * k + rem,
            rem < height,
    ;
    assert(n <= height * workers - 1) by (nonlinear_arith)
        requires
            y <= height - 1,
            workers >= 1,
            n == y * workers + workers - 1,
    ;
    assert(k < workers) by (nonlinear_arith)
        requires
            n == height * k + rem,
            rem >= 0,
            n <= height * workers - 1,
            height >= 1,
    ;
    // The band of k starts at or before y ...
    assert(height * k <= y * workers + workers - 1);
    assert(height * k < (y + 1) * workers) by (nonlinear_arith)
        requires
            height * k <= y * workers + workers - 1,
    ;
    assert(height * k / workers <= y) by {
        vstd::arithmetic::div_mod::lemma_fundamental_div_mod(height * k, workers);
        assert(height * k / workers <= y) by (nonlinear_arith)
            requires
                height * k == workers * (height * k / workers) + (height * k) % workers,
                0 <= (height * k) % workers < workers,
                height * k < (y + 1) * workers,
                workers >= 1,
        ;
    }
    // ... and ends past y.
    assert(height * (k + 1) >= (y + 1) * workers) by (nonlinear_arith)
        requires
            n == height * k + rem,
            rem < height,
            n == y * workers + workers - 1,
    ;
    assert(height * (k + 1) / workers >= y + 1) by {
        vstd::arithmetic::div_mod::lemma_fundamental_div_mod(height * (k + 1), workers);
        assert(height * (k + 1) / workers >= y + 1) by (nonlinear_arith)
            requires
                height * (k + 1) == workers * (height * (k + 1) / workers) + (height * (k + 1))
                    % workers,
                0 <= (height * (k + 1)) % workers < workers,
                height * (k + 1) >= (y + 1) * workers,
                workers >= 1,
        ;
    }
    assert(0 <= k < workers && row_start_s(height, workers, k) <= y < row_start_s(
        height,
        workers,
        k + 1,
    ));
    // No other band holds y: bands are ordered, so an earlier band ends
    // by the time a later one starts.
    assert forall|i: int, j: int|
        (0 <= i && 0 <= j && #[trigger] row_start_s(height, workers, i) <= y < row_start_s(
            height,
            workers,
            i + 1,
        ) && #[trigger] row_start_s(height, workers, j) <= y < row_start_s(
            height,
            workers,
            j + 1,
        )) implies i == j by {
        if i < j {
            lemma_rows_ordered(height, workers, i + 1, j);
        }
        if j < i {
            lemma_rows_ordered(height, workers, j + 1, i);
        }
    }
}

} // verus!
