use pdf2key::spool::{slide_file_name, slide_path, target_pixels, workspace_dir};

#[test]
fn slide_names_are_zero_padded() {
    assert_eq!(slide_file_name(0), "slide_0000.png");
    assert_eq!(slide_file_name(1), "slide_0001.png");
    assert_eq!(slide_file_name(2), "slide_0002.png");
    assert_eq!(slide_file_name(42), "slide_0042.png");
    assert_eq!(slide_file_name(999), "slide_0999.png");
    assert_eq!(slide_file_name(9999), "slide_9999.png");
}

#[test]
fn slide_names_past_four_digits_keep_all_digits() {
    assert_eq!(slide_file_name(10000), "slide_10000.png");
    assert_eq!(slide_file_name(123456), "slide_123456.png");
}

#[test]
fn slide_names_sort_like_ordinals() {
    let names: Vec<String> = (0..10000u64).map(slide_file_name).collect();
    let mut sorted = names.clone();
    sorted.sort();
    assert_eq!(names, sorted);
}

#[test]
fn slide_path_joins_workspace() {
    assert_eq!(slide_path("/tmp/pdf2key_7", 3), "/tmp/pdf2key_7/slide_0003.png");
}

#[test]
fn workspace_is_named_by_timestamp() {
    assert_eq!(workspace_dir("/tmp", 1700000000123456789), "/tmp/pdf2key_1700000000123456789");
    assert_eq!(workspace_dir("/tmp", 0), "/tmp/pdf2key_0");
}

#[test]
fn workspaces_of_different_instants_differ() {
    assert_ne!(workspace_dir("/tmp", 1000), workspace_dir("/tmp", 1001));
}

#[test]
fn pixels_at_200_dpi() {
    // US letter: 612 x 792 points.
    assert_eq!(target_pixels(612, 1, 200), 1700);
    assert_eq!(target_pixels(792, 1, 200), 2200);
    // A4: 595.28 x 841.89 points.
    assert_eq!(target_pixels(59528, 100, 200), 1654);
    assert_eq!(target_pixels(84189, 100, 200), 2339);
}

#[test]
fn pixels_round_to_nearest() {
    // 0.36 points at 100 dpi is exactly half a pixel: rounds up.
    assert_eq!(target_pixels(36, 100, 100), 1);
    assert_eq!(target_pixels(35, 100, 100), 0);
    assert_eq!(target_pixels(72, 1, 72), 72);
    assert_eq!(target_pixels(0, 1, 300), 0);
}

#[test]
fn pixels_of_binary_fractions() {
    // 595.28 as an f32 is 2438267 / 4096 points exactly.
    let v = 595.28f32;
    assert_eq!(2438267.0f64 / 4096.0, v as f64);
    assert_eq!(target_pixels(2438267, 4096, 200), 1654);
    // 0.75 point at 48 dpi is exactly half a pixel.
    assert_eq!(target_pixels(3, 4, 48), 1);
}

#[test]
fn pixels_of_the_largest_inputs() {
    let expected = (2 * (u64::MAX as u128) * (u16::MAX as u128) + 72) / 144;
    assert_eq!(target_pixels(u64::MAX, 1, u16::MAX), expected);
}
