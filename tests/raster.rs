use trace::raster::{channel_byte, raster_bytes};

fn rounded(c: f64) -> i64 {
    c.round() as i64
}

#[test]
fn channel_clamps_and_rounds() {
    assert_eq!(channel_byte(rounded(300.7)), 255);
    assert_eq!(channel_byte(rounded(-12.0)), 0);
    assert_eq!(channel_byte(rounded(128.4)), 128);
}

#[test]
fn channel_edges() {
    assert_eq!(channel_byte(0), 0);
    assert_eq!(channel_byte(255), 255);
    assert_eq!(channel_byte(256), 255);
    assert_eq!(channel_byte(-1), 0);
    assert_eq!(channel_byte(i64::MIN), 0);
    assert_eq!(channel_byte(i64::MAX), 255);
}

#[test]
fn raster_rows_in_order() {
    let rows = vec![
        vec![(1, 2, 3), (300, -5, 128)],
        vec![(255, 0, 256), (10, 20, 30)],
    ];
    assert_eq!(
        raster_bytes(&rows),
        vec![1, 2, 3, 255, 0, 128, 255, 0, 255, 10, 20, 30]
    );
}

#[test]
fn raster_of_empty_grid() {
    assert_eq!(raster_bytes(&vec![]), Vec::<u8>::new());
    assert_eq!(raster_bytes(&vec![vec![], vec![]]), Vec::<u8>::new());
}

#[test]
fn raster_of_background_pixel() {
    let rows = vec![vec![(135, 206, 235)]];
    assert_eq!(raster_bytes(&rows), vec![135, 206, 235]);
}
