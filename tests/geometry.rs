use spotlight::plane::{fit_corrects_x, pixel_grid, plane_point};
use spotlight::{Canvas, ConfigError, ObjectFit, PlanePoint};

fn point(x_num: i64, y_num: i64, den: u32) -> PlanePoint {
    PlanePoint { x_num, y_num, den }
}

#[test]
fn canvas_rejects_zero_width() {
    assert_eq!(Canvas::new(0, 5), Err(ConfigError::ZeroWidth));
    assert_eq!(Canvas::new(0, 0), Err(ConfigError::ZeroWidth));
}

#[test]
fn canvas_rejects_zero_height() {
    assert_eq!(Canvas::new(5, 0), Err(ConfigError::ZeroHeight));
}

#[test]
fn canvas_accepts_positive_sides() {
    assert_eq!(Canvas::new(800, 600), Ok(Canvas { width: 800, height: 600 }));
}

#[test]
fn pixel_count_is_width_times_height() {
    assert_eq!(Canvas { width: 800, height: 600 }.pixel_count(), 480_000);
    let huge = Canvas { width: u32::MAX, height: u32::MAX };
    assert_eq!(huge.pixel_count(), (u32::MAX as u64) * (u32::MAX as u64));
}

#[test]
fn pixel_index_and_pixel_at_are_inverse() {
    let c = Canvas { width: 3, height: 2 };
    assert_eq!(c.pixel_index(2, 1), 5);
    assert_eq!(c.pixel_at(5), (2, 1));
    let mut seen = vec![false; 6];
    for y in 0..2 {
        for x in 0..3 {
            let i = c.pixel_index(x, y);
            assert!(!seen[i as usize]);
            seen[i as usize] = true;
            assert_eq!(c.pixel_at(i), (x, y));
        }
    }
    assert!(seen.iter().all(|s| *s));
}

#[test]
fn fit_truth_table() {
    let wide = Canvas { width: 4, height: 2 };
    let tall = Canvas { width: 2, height: 4 };
    assert!(fit_corrects_x(&wide, ObjectFit::Contain));
    assert!(!fit_corrects_x(&tall, ObjectFit::Contain));
    assert!(!fit_corrects_x(&wide, ObjectFit::Cover));
    assert!(fit_corrects_x(&tall, ObjectFit::Cover));
}

#[test]
fn two_by_two_plane_points() {
    let c = Canvas { width: 2, height: 2 };
    for fit in [ObjectFit::Contain, ObjectFit::Cover] {
        assert_eq!(plane_point(&c, fit, 0, 0), point(-2, 2, 2));
        assert_eq!(plane_point(&c, fit, 1, 0), point(0, 2, 2));
        assert_eq!(plane_point(&c, fit, 0, 1), point(-2, 0, 2));
        assert_eq!(plane_point(&c, fit, 1, 1), point(0, 0, 2));
    }
}

#[test]
fn contain_on_wide_canvas_widens_x() {
    // x = (0 / 4 * 2 - 1) * 2 = -2, y = 1
    let c = Canvas { width: 4, height: 2 };
    assert_eq!(plane_point(&c, ObjectFit::Contain, 0, 0), point(-4, 2, 2));
    assert_eq!(plane_point(&c, ObjectFit::Contain, 3, 1), point(2, 0, 2));
}

#[test]
fn cover_on_wide_canvas_narrows_y() {
    // x = -1, y = 1 / 2
    let c = Canvas { width: 4, height: 2 };
    assert_eq!(plane_point(&c, ObjectFit::Cover, 0, 0), point(-4, 2, 4));
}

#[test]
fn contain_on_tall_canvas_widens_y() {
    // x = -1, y = (0 / 4 * -2 + 1) * 2 = 2
    let c = Canvas { width: 2, height: 4 };
    assert_eq!(plane_point(&c, ObjectFit::Contain, 0, 0), point(-2, 4, 2));
}

#[test]
fn cover_on_tall_canvas_narrows_x() {
    // x = -1 / 2, y = 1
    let c = Canvas { width: 2, height: 4 };
    assert_eq!(plane_point(&c, ObjectFit::Cover, 0, 0), point(-2, 4, 4));
}

#[test]
fn square_canvas_fits_agree() {
    let c = Canvas { width: 5, height: 5 };
    for y in 0..5 {
        for x in 0..5 {
            assert_eq!(
                plane_point(&c, ObjectFit::Contain, x, y),
                plane_point(&c, ObjectFit::Cover, x, y)
            );
        }
    }
}

#[test]
fn grid_has_one_point_per_pixel() {
    let c = Canvas { width: 7, height: 3 };
    for fit in [ObjectFit::Contain, ObjectFit::Cover] {
        let grid = pixel_grid(&c, fit);
        assert_eq!(grid.len(), 21);
        for (i, p) in grid.iter().enumerate() {
            let (x, y) = c.pixel_at(i as u64);
            assert_eq!(*p, plane_point(&c, fit, x, y));
        }
    }
}

#[test]
fn grid_of_single_pixel() {
    let c = Canvas { width: 1, height: 1 };
    assert_eq!(pixel_grid(&c, ObjectFit::Contain), vec![point(-1, 1, 1)]);
}

#[test]
fn extreme_canvas_coordinates_fit() {
    let c = Canvas { width: u32::MAX, height: 1 };
    let p = plane_point(&c, ObjectFit::Cover, u32::MAX - 1, 0);
    assert_eq!(p, point(u32::MAX as i64 - 2, 1, u32::MAX));
}
