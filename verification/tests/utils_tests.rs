use tile_breaker::block::Color;
use tile_breaker::game::layer_color_exec;
use tile_breaker::utils::{safe_u8_add, Settings};

#[test]
fn safe_u8_add_is_exact_within_range() {
    assert_eq!(safe_u8_add(10, 20), 30);
    assert_eq!(safe_u8_add(255, 0), 255);
    assert_eq!(safe_u8_add(0, 0), 0);
    assert_eq!(safe_u8_add(100, -40), 60);
}

#[test]
fn safe_u8_add_bounces_off_the_top() {
    assert_eq!(safe_u8_add(255, 1), 254);
    assert_eq!(safe_u8_add(250, 10), 250);
    assert_eq!(safe_u8_add(200, 310), 0);
    assert_eq!(safe_u8_add(226, 36), 248);
}

#[test]
fn safe_u8_add_bounces_off_the_bottom() {
    assert_eq!(safe_u8_add(0, -1), 1);
    assert_eq!(safe_u8_add(5, -10), 5);
    assert_eq!(safe_u8_add(0, -255), 255);
}

#[test]
fn safe_u8_add_repeats_every_510() {
    assert_eq!(safe_u8_add(100, 600), safe_u8_add(100, 90));
    assert_eq!(safe_u8_add(100, 600), 190);
    assert_eq!(safe_u8_add(7, 510 * 1000), 7);
}

#[test]
fn layer_colours_walk_away_from_the_base() {
    let base = Color::blueviolet();
    assert_eq!(base, Color::new(138, 43, 226, 255));
    assert_eq!(layer_color_exec(base, 1), Color::new(147, 52, 235, 255));
    assert_eq!(layer_color_exec(base, 4), Color::new(174, 79, 248, 255));
    assert_eq!(layer_color_exec(base, 0), Color::new(138, 43, 226, 255));
    let faded = Color::new(1, 2, 3, 0);
    assert_eq!(layer_color_exec(faded, 0).a, 255);
}

#[test]
fn settings_default_to_no_rotation() {
    assert!(!Settings::new().rotation);
}

#[test]
fn settings_are_written_as_one_quoted_line() {
    assert_eq!(Settings { rotation: true }.to_contents(), "\"rotation\": \"true\"\n");
    assert_eq!(Settings { rotation: false }.to_contents(), "\"rotation\": \"false\"\n");
}

#[test]
fn settings_read_back_what_was_written() {
    for r in [true, false] {
        let s = Settings { rotation: r };
        assert_eq!(Settings::from_contents(&s.to_contents()).rotation, r);
    }
}

#[test]
fn settings_from_empty_file_are_defaults() {
    assert!(!Settings::from_contents("").rotation);
    assert!(!Settings::from_contents("\n\n   \n").rotation);
}

#[test]
fn settings_lines_are_trimmed_and_unquoted() {
    assert!(Settings::from_contents("\"rotation\": \"true\"").rotation);
    assert!(Settings::from_contents("rotation:true").rotation);
    assert!(Settings::from_contents("   \"rotation\" :   \"true\"  \r\n").rotation);
    assert!(Settings::from_contents("\"\"rotation\"\": \"\"true\"\"\n").rotation);
    assert!(Settings::from_contents("\u{3000}rotation\u{a0}:\ttrue\n").rotation);
}

#[test]
fn settings_ignore_other_lines() {
    assert!(!Settings::from_contents("rotation true\n").rotation);
    assert!(!Settings::from_contents("Rotation: true\n").rotation);
    assert!(!Settings::from_contents("rotation: True\n").rotation);
    assert!(!Settings::from_contents("rotation: yes\n").rotation);
    assert!(!Settings::from_contents("rotation:: true\n").rotation);
    assert!(Settings::from_contents("volume: 3\nrotation: true\ncolour: red\n").rotation);
}

#[test]
fn settings_last_rotation_line_wins() {
    assert!(!Settings::from_contents("rotation: true\nrotation: false\n").rotation);
    assert!(Settings::from_contents("rotation: false\nrotation: true").rotation);
    assert!(!Settings::from_contents("rotation: true\nrotation: nope\n").rotation);
}
