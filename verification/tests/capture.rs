use cosmicsnip::capture::{clipboard_poll, is_fresh, locate, percent_decode, Location, PollAction, CLIPBOARD_POLLS};

#[test]
fn a_file_uri_is_a_path() {
    assert_eq!(
        locate("file:///home/u/Pictures/Screenshot%20one.png").unwrap(),
        Location::File(String::from("/home/u/Pictures/Screenshot one.png"))
    );
}

#[test]
fn the_clipboard_uri_is_the_clipboard() {
    assert_eq!(locate("clipboard:///").unwrap(), Location::Clipboard);
}

#[test]
fn the_previous_clipboard_image_is_not_the_snip() {
    let old = [1u8, 2, 3];
    assert!(!is_fresh(Some(&old), &old));
    assert!(is_fresh(Some(&old), &[4, 5]));
    assert!(is_fresh(None, &[4, 5]));
    assert!(!is_fresh(None, &[]));
}

#[test]
fn anything_else_is_refused() {
    assert!(locate("https://example.com/a.png").is_err());
    assert!(locate("file://").is_err());
}

#[test]
fn refusals_say_what_the_portal_answered() {
    assert_eq!(
        locate("file://").unwrap_err(),
        "portal returned an empty file URI: file://"
    );
    assert_eq!(
        locate("https://example.com/a.png").unwrap_err(),
        "portal returned an unsupported URI: https://example.com/a.png"
    );
}

#[test]
fn escapes_decode_where_they_are_hex() {
    assert_eq!(percent_decode("a%41b"), "aAb");
    assert_eq!(percent_decode("%e2%82%ac"), "\u{20ac}");
    // A sign before one hex digit reads as that digit.
    assert_eq!(percent_decode("%+9"), "\t");
    // Not hex, or cut short: kept as written.
    assert_eq!(percent_decode("%zz"), "%zz");
    assert_eq!(percent_decode("50%"), "50%");
    assert_eq!(percent_decode("%4"), "%4");
    assert_eq!(percent_decode("%%41"), "%A");
    // Bytes that are not UTF-8 become the replacement character.
    assert_eq!(percent_decode("%ff"), "\u{fffd}");
}

#[test]
fn a_plain_path_is_itself() {
    assert_eq!(
        locate("file:///tmp/snip.png").unwrap(),
        Location::File(String::from("/tmp/snip.png"))
    );
    assert_eq!(
        locate("file://r\u{e9}sum\u{e9}.png").unwrap(),
        Location::File(String::from("r\u{e9}sum\u{e9}.png"))
    );
}

#[test]
fn a_clipboard_uri_needs_only_its_scheme() {
    assert_eq!(locate("clipboard:").unwrap(), Location::Clipboard);
    assert!(locate("clipboard").is_err());
}

#[test]
fn equal_lengths_are_not_enough_to_be_the_same_picture() {
    assert!(is_fresh(Some(&[1, 2, 3]), &[1, 2, 4]));
}

#[test]
fn the_clipboard_is_read_a_hundred_times_at_most() {
    let old = [1u8, 2, 3];
    let new = [4u8, 5];
    assert_eq!(clipboard_poll(0, Some(&old), Some(&new)), PollAction::Take);
    assert_eq!(clipboard_poll(99, None, Some(&new)), PollAction::Take);
    assert_eq!(clipboard_poll(0, Some(&old), Some(&old)), PollAction::Retry);
    assert_eq!(clipboard_poll(98, Some(&old), None), PollAction::Retry);
    assert_eq!(clipboard_poll(99, Some(&old), Some(&old)), PollAction::GiveUp);
    assert_eq!(clipboard_poll(CLIPBOARD_POLLS - 1, None, Some(&[])), PollAction::GiveUp);
    let mut attempt = 0;
    while clipboard_poll(attempt, Some(&old), Some(&old)) == PollAction::Retry {
        attempt += 1;
    }
    assert_eq!(attempt + 1, CLIPBOARD_POLLS);
}
