use home_clock::layout::center_offset;

#[test]
fn centering_is_exact_for_even_differences() {
    assert_eq!(center_offset(800, 600), 100);
    assert_eq!(center_offset(800, 800), 0);
    assert_eq!(center_offset(800, 0), 400);
}

#[test]
fn centering_rounds_odd_differences_down_by_one_pixel() {
    assert_eq!(center_offset(800, 601), 99);
    assert_eq!(center_offset(801, 600), 100);
}

#[test]
fn an_overwide_run_gets_a_negative_offset() {
    assert_eq!(center_offset(100, 150), -25);
    assert_eq!(center_offset(100, 151), -25);
    assert_eq!(center_offset(100, 152), -26);
}
