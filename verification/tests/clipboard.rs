//! Tests of the TARGETS-listing decision.

use image_editor::clipboard::targets_include_png;

#[test]
fn finds_png_among_targets() {
    let listing = "TIMESTAMP\nTARGETS\nimage/png\ntext/plain\n";
    assert!(targets_include_png(listing));
}

#[test]
fn finds_png_with_crlf_endings() {
    let listing = "TIMESTAMP\r\nimage/png\r\ntext/plain\r\n";
    assert!(targets_include_png(listing));
}

#[test]
fn finds_png_as_last_line_without_newline() {
    assert!(targets_include_png("text/plain\nimage/png"));
    assert!(targets_include_png("image/png"));
    assert!(targets_include_png("image/png\n"));
}

#[test]
fn rejects_listing_without_png() {
    assert!(!targets_include_png(""));
    assert!(!targets_include_png("\n"));
    assert!(!targets_include_png("TIMESTAMP\ntext/plain\ntext/html\n"));
}

#[test]
fn rejects_lines_that_only_contain_the_name() {
    assert!(!targets_include_png("ximage/png\n"));
    assert!(!targets_include_png("image/pngx\n"));
    assert!(!targets_include_png("image/png \n"));
    assert!(!targets_include_png(" image/png\n"));
    assert!(!targets_include_png("image/pn\ng\n"));
    assert!(!targets_include_png("IMAGE/PNG\n"));
}

#[test]
fn bare_trailing_carriage_return_stays_in_the_line() {
    // `str::lines` strips `\r` only as part of `\r\n`; a final bare `\r`
    // belongs to the line, which then is not exactly `image/png`.
    assert!(!targets_include_png("image/png\r"));
    assert!(targets_include_png("image/png\r\n"));
}
