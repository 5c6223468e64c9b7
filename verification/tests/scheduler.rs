//! The row-band scheduler: for any resolution and worker count the
//! bands are contiguous, ordered, and tile `[0, height)` exactly once.

use raytracer::camera::worker_rows;

fn assert_bands_tile(height: usize, workers: usize) {
    let mut next_expected: usize = 0;
    for worker in 0..workers {
        let (start, stop) = worker_rows(height, workers, worker);
        assert_eq!(start, height * worker / workers);
        assert_eq!(stop, height * (worker + 1) / workers);
        // Bands chain without gap or overlap.
        assert_eq!(start, next_expected);
        assert!(start <= stop);
        next_expected = stop;
    }
    // The last band ends exactly at the image height.
    assert_eq!(next_expected, height);
}

#[test]
fn bands_tile_typical_resolutions() {
    assert_bands_tile(450, 7);
    assert_bands_tile(1080, 16);
    assert_bands_tile(720, 12);
}

#[test]
fn bands_tile_degenerate_shapes() {
    // Fewer rows than workers: most bands are empty but the union is
    // still exact.
    assert_bands_tile(3, 10);
    assert_bands_tile(1, 8);
    // One worker takes the whole image.
    assert_bands_tile(450, 1);
    // As many workers as rows.
    assert_bands_tile(5, 5);
}

#[test]
fn every_row_in_exactly_one_band() {
    let height: usize = 97;
    let workers: usize = 13;
    for y in 0..height {
        let mut owners = 0;
        for worker in 0..workers {
            let (start, stop) = worker_rows(height, workers, worker);
            if (start..stop).contains(&y) {
                owners += 1;
            }
        }
        assert_eq!(owners, 1);
    }
}
