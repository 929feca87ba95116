use cosmicsnip::config::{clamp_color, palette_label, palette_name, PALETTE_LEN};
use cosmicsnip::prefs::{format_prefs, settings, Setting};

#[test]
fn the_written_file_reads_back_its_settings() {
    let text = format_prefs(2, "7", "32");
    assert_eq!(
        settings(&text),
        vec![
            Setting::Color(2),
            Setting::PenWidth(String::from("7")),
            Setting::HighlightWidth(String::from("32")),
        ]
    );
}

#[test]
fn the_colour_is_written_by_name() {
    assert!(format_prefs(3, "3", "20").contains(&format!("color={}", palette_name(3))));
    assert_eq!(format_prefs(3, "3", "20"), "color=green\npen_width=3\nhighlight_width=20\n");
    // Past the end of the palette, the last colour.
    assert!(format_prefs(99, "3", "20").starts_with("color=white\n"));
}

#[test]
fn damaged_lines_are_passed_over() {
    let found = settings("color=purple\npen_width=abc\nhighlight_width=NaN\nnoise\n");
    assert_eq!(
        found,
        vec![
            Setting::PenWidth(String::from("abc")),
            Setting::HighlightWidth(String::from("NaN")),
        ]
    );
}

#[test]
fn keys_and_values_are_trimmed() {
    let found = settings("  color =  blue \r\npen_width= 500\nhighlight_width=0\n\nunknown=1\n=3");
    assert_eq!(
        found,
        vec![
            Setting::Color(2),
            Setting::PenWidth(String::from("500")),
            Setting::HighlightWidth(String::from("0")),
        ]
    );
}

#[test]
fn only_the_first_equals_sign_splits() {
    assert_eq!(
        settings("pen_width==4"),
        vec![Setting::PenWidth(String::from("=4"))]
    );
    assert_eq!(settings("pen_width"), vec![]);
    assert_eq!(settings(""), vec![]);
}

#[test]
fn the_palette_has_six_named_colours() {
    let names: Vec<&str> = (0..PALETTE_LEN).map(palette_name).collect();
    assert_eq!(names, ["red", "orange", "blue", "green", "black", "white"]);
    let labels: Vec<&str> = (0..PALETTE_LEN).map(palette_label).collect();
    assert_eq!(labels, ["Red", "Orange", "Blue", "Green", "Black", "White"]);
    assert_eq!(clamp_color(4), 4);
    assert_eq!(clamp_color(6), 5);
}
