use screen_watch::artifact::artifact_file_name;

#[test]
fn names_the_artifact_after_the_display() {
    assert_eq!(artifact_file_name(0), "temp_screenshot_0.png");
    assert_eq!(artifact_file_name(7), "temp_screenshot_7.png");
    assert_eq!(artifact_file_name(10), "temp_screenshot_10.png");
    assert_eq!(artifact_file_name(42), "temp_screenshot_42.png");
    assert_eq!(artifact_file_name(1009), "temp_screenshot_1009.png");
    assert_eq!(artifact_file_name(69734208), "temp_screenshot_69734208.png");
}

#[test]
fn names_the_artifact_of_the_largest_display_id() {
    assert_eq!(artifact_file_name(u32::MAX), "temp_screenshot_4294967295.png");
}

#[test]
fn different_displays_get_different_names() {
    assert_ne!(artifact_file_name(1), artifact_file_name(10));
    assert_ne!(artifact_file_name(1), artifact_file_name(2));
    assert_ne!(artifact_file_name(12), artifact_file_name(21));
}

#[test]
fn the_name_agrees_with_the_standard_formatting() {
    for id in [0u32, 9, 10, 99, 100, 65535, 65536, 4294967294] {
        assert_eq!(artifact_file_name(id), format!("temp_screenshot_{}.png", id));
    }
}
