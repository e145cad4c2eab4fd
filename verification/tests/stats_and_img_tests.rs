use mtas::img::{flip_vertical, rgba_to_gray};
use mtas::platform::Platform;
use mtas::stats::{sort_samples, trimmed_mean};

#[test]
fn sort_orders_ascending() {
    let v: Vec<u64> = vec![5, 1, 4, 1, 9];
    assert_eq!(sort_samples(&v), vec![1, 1, 4, 5, 9]);
}

#[test]
fn trimmed_mean_of_ten_drops_min_and_max() {
    let v: Vec<u64> = vec![5, 1_000_000, 5, 5, 5, 5, 5, 5, 5, 1];
    assert_eq!(trimmed_mean(&v), 5);
}

#[test]
fn trimmed_mean_of_small_sets_trims_nothing() {
    assert_eq!(trimmed_mean(&vec![10]), 10);
    assert_eq!(trimmed_mean(&vec![1, 2, 3]), 2);
    assert_eq!(trimmed_mean(&vec![2, 4]), 3);
}

#[test]
fn trimmed_mean_of_twenty_drops_two_each_side() {
    let mut v: Vec<u64> = vec![7; 16];
    v.extend(vec![0, 0, 100, 100]);
    assert_eq!(trimmed_mean(&v), 7);
}

#[test]
fn rgba_luma_uses_broadcast_weights() {
    // One red, one green, one blue, one white pixel.
    let frame: Vec<u8> = vec![
        255, 0, 0, 255, //
        0, 255, 0, 255, //
        0, 0, 255, 255, //
        255, 255, 255, 255,
    ];
    let g = rgba_to_gray(&frame, 4, 1);
    assert_eq!(g.pixels, vec![76, 149, 29, 255]);
}

#[test]
fn flip_vertical_reverses_row_order() {
    let data: Vec<u8> = vec![1, 2, 3, 4, 5, 6];
    let flipped = flip_vertical(&data, 2, 3);
    assert_eq!(flipped, vec![5, 6, 3, 4, 1, 2]);
}

#[test]
fn flip_vertical_twice_is_identity() {
    let data: Vec<u8> = (0u8..24u8).collect();
    let once = flip_vertical(&data, 4, 6);
    let twice = flip_vertical(&once, 4, 6);
    assert_eq!(twice, data);
}

#[test]
fn capture_export_pipeline_flips_then_grays() {
    // A 1x2 bottom-up RGBA frame: exporting flips rows first, so the
    // grayscale of the flipped frame starts with the captured bottom row.
    let bottom_up: Vec<u8> = vec![
        255, 0, 0, 255, // bottom row, red
        0, 255, 0, 255, // top row, green
    ];
    let top_down = flip_vertical(&bottom_up, 4, 2);
    let g = rgba_to_gray(&top_down, 1, 2);
    assert_eq!(g.pixels, vec![149, 76]);
}

#[test]
fn adb_endpoint_is_local_loopback() {
    let info = Platform::MuMu.adb_addr();
    assert_eq!(
        (info.ip_a, info.ip_b, info.ip_c, info.ip_d, info.adb_port),
        (127, 0, 0, 1, 16384)
    );
}
