use gpui_mcp::golden::{
    actual_name, compare, count_differing, differing_pixels, place_golden, read_size,
    screenshot_params, size_mismatch_detail, switch_is_on, Allowance, Comparison,
    GoldenExpectation, Keep, Picture, Standing, Stored,
};
use gpui_mcp::path::{actual_path, parse_path};

fn png(width: u32, height: u32, fill: [u8; 4]) -> Vec<u8> {
    encode(&image::RgbaImage::from_pixel(
        width,
        height,
        image::Rgba(fill),
    ))
}

fn encode(image: &image::RgbaImage) -> Vec<u8> {
    let mut bytes = std::io::Cursor::new(Vec::new());
    image
        .write_to(&mut bytes, image::ImageFormat::Png)
        .expect("encode");
    bytes.into_inner()
}

fn expectation() -> GoldenExpectation {
    GoldenExpectation {
        path: "golden/window.png".to_string(),
        element_id: None,
        window_id: None,
        channel_tolerance: None,
    }
}

fn factor(golden: (u32, u32), actual: (u32, u32)) -> Option<String> {
    let x = f64::from(actual.0) / f64::from(golden.0.max(1));
    let y = f64::from(actual.1) / f64::from(golden.1.max(1));
    ((x - y).abs() < 0.01 && (x - 1.0).abs() > 0.01).then_some(format!("{x:.2}"))
}

fn allowance(count: u64, total: u64, tolerance: f64) -> Allowance {
    let fraction = if total == 0 { 0.0 } else { count as f64 / total as f64 };
    Allowance {
        within: fraction <= tolerance,
        differing_percent: format!("{:.4}", fraction * 100.0),
        allowed_percent: format!("{:.4}", tolerance * 100.0),
    }
}

fn run(
    expectation: &GoldenExpectation,
    bytes: &[u8],
    scale: Option<&str>,
    stored: Stored,
    tolerance: f64,
) -> Result<(Comparison, Keep), String> {
    compare(expectation, bytes, scale, stored, factor, |count, total| {
        allowance(count, total, tolerance)
    })
}

/// The first run has nothing to compare against. It must say so rather
/// than report a pass: a run that quietly writes its own expectations
/// proves nothing about the next one.
#[test]
fn the_first_run_writes_the_golden_and_says_so() {
    let bytes = png(4, 4, [10, 20, 30, 255]);
    let (result, keep) = run(&expectation(), &bytes, None, Stored::Missing, 0.001).unwrap();

    assert!(result.matched);
    assert!(result.created);
    assert!(!result.compared);
    assert_eq!((result.width, result.height), (4, 4));
    assert_eq!(result.total_pixels, 16);
    assert_eq!(result.golden, "golden/window.png");
    assert!(result
        .detail
        .as_deref()
        .unwrap()
        .contains("nothing to compare"));
    assert_eq!(keep, Keep::AsGolden);
}

/// Whatever the app hands over is stored as the golden, so it had better
/// be an image — a run that stored garbage would fail every later run
/// with a message about the golden, not about the screenshot.
#[test]
fn bytes_that_are_not_a_png_are_refused_before_being_stored() {
    let error =
        run(&expectation(), b"not a png", None, Stored::Missing, 0.001).expect_err("refused");
    assert!(error.contains("new screenshot"), "{error}");
}

/// Edge pixels move by a level or two between runs on the same machine.
/// A comparison that called that a failure would fail every time, and a
/// check that always fails is a check nobody reads.
#[test]
fn a_shift_within_the_channel_tolerance_still_matches() {
    let stored = Stored::Image(png(4, 4, [100, 100, 100, 255]));
    let bytes = png(4, 4, [104, 96, 100, 255]);
    let (result, keep) = run(&expectation(), &bytes, None, stored, 0.001).unwrap();

    assert!(result.matched, "{:?}", result.detail);
    assert!(result.compared);
    assert_eq!(result.differing_pixels, 0);
    assert_eq!(keep, Keep::Nowhere);
}

#[test]
fn a_real_difference_fails_and_leaves_the_actual_image_behind() {
    let stored = Stored::Image(png(4, 4, [0, 0, 0, 255]));
    let bytes = png(4, 4, [255, 255, 255, 255]);
    let (result, keep) = run(&expectation(), &bytes, None, stored, 0.001).unwrap();

    assert!(!result.matched);
    assert_eq!(result.differing_pixels, 16);
    assert_eq!(result.total_pixels, 16);

    let actual = result.actual.as_deref().expect("the failing image");
    assert_eq!(actual, "golden/window.actual.png");
    assert!(actual.ends_with(".actual.png"), "{actual}");
    assert_eq!(keep, Keep::BesideGolden);
    assert_eq!(
        result.detail.as_deref().unwrap(),
        "16 of 16 pixels differ by more than 8 per channel (100.0000% against a 0.1000% \
         allowance). This run was written to golden/window.actual.png — open both. If the \
         change is intended, re-run with GPUI_MCP_UPDATE_GOLDENS=1."
    );
}

/// One pixel of sixteen is 6.25%, well over the default allowance — and
/// the same pixel in a real window is far under it. The fraction is what
/// makes one tolerance mean the same thing at every size.
#[test]
fn the_allowance_is_a_fraction_not_a_count() {
    let golden = png(4, 4, [0, 0, 0, 255]);
    let mut changed = image::RgbaImage::from_pixel(4, 4, image::Rgba([0, 0, 0, 255]));
    changed.put_pixel(0, 0, image::Rgba([255, 255, 255, 255]));
    let bytes = encode(&changed);

    let (strict, _) =
        run(&expectation(), &bytes, None, Stored::Image(golden.clone()), 0.001).unwrap();
    assert!(!strict.matched, "one pixel of sixteen is over the default");
    assert_eq!(strict.differing_pixels, 1);

    let (lenient, _) = run(&expectation(), &bytes, None, Stored::Image(golden), 0.1).unwrap();
    assert!(lenient.matched, "{:?}", lenient.detail);
}

/// A different size is reported as exactly that, with nothing counted as
/// differing — "100% of pixels differ" would be a claim about a comparison
/// that never happened.
#[test]
fn a_different_size_says_the_window_was_not_pinned() {
    let stored = Stored::Image(png(4, 4, [0, 0, 0, 255]));
    let bytes = png(8, 4, [0, 0, 0, 255]);
    let (result, keep) = run(&expectation(), &bytes, None, stored, 0.001).unwrap();

    assert!(!result.matched);
    assert!(!result.compared);
    assert_eq!(result.differing_pixels, 0);
    let detail = result.detail.as_deref().unwrap();
    assert!(detail.contains("4x4"), "{detail}");
    assert!(detail.contains("8x4"), "{detail}");
    assert!(detail.contains("viewport"), "{detail}");
    assert!(!detail.contains("display scale"), "{detail}");
    assert_eq!(keep, Keep::BesideGolden);
}

/// The same window on a 200% display is twice the image. Telling that
/// user to pin the window would send them looking in the wrong place.
#[test]
fn a_uniformly_scaled_size_names_the_display_scale() {
    let stored = Stored::Image(png(4, 4, [0, 0, 0, 255]));
    let bytes = png(8, 8, [0, 0, 0, 255]);
    let (result, _) = run(&expectation(), &bytes, Some("2"), stored, 0.001).unwrap();

    assert!(!result.matched);
    let detail = result.detail.as_deref().unwrap();
    assert!(detail.contains("2.00"), "{detail}");
    assert!(detail.contains("display scale"), "{detail}");
    assert!(detail.contains("device scale of 2"), "{detail}");
}

/// A cropped element has a third way to change size: itself.
#[test]
fn a_cropped_mismatch_mentions_the_element() {
    let stored = Stored::Image(png(4, 4, [0, 0, 0, 255]));
    let cropped = GoldenExpectation {
        element_id: Some("sidebar".into()),
        ..expectation()
    };
    let (result, _) = run(&cropped, &png(6, 4, [0, 0, 0, 255]), None, stored, 0.001).unwrap();

    let detail = result.detail.as_deref().unwrap();
    assert!(detail.contains("element itself"), "{detail}");
}

#[test]
fn an_updating_run_rewrites_instead_of_comparing() {
    let bytes = png(2, 3, [1, 2, 3, 4]);
    let (result, keep) = run(&expectation(), &bytes, None, Stored::Updating, 0.001).unwrap();
    assert!(result.matched && !result.compared && !result.created);
    assert_eq!((result.width, result.height), (2, 3));
    assert_eq!(
        result.detail.as_deref(),
        Some("GPUI_MCP_UPDATE_GOLDENS is set, so golden/window.png was rewritten rather than compared.")
    );
    assert_eq!(keep, Keep::AsGolden);
}

#[test]
fn a_golden_that_cannot_be_read_is_an_error() {
    let bytes = png(1, 1, [0; 4]);
    let stored = Stored::Unreadable("permission denied".into());
    assert_eq!(
        run(&expectation(), &bytes, None, stored, 0.001).unwrap_err(),
        "Cannot read golden/window.png: permission denied"
    );
    let stored = Stored::Image(b"garbage".to_vec());
    let error = run(&expectation(), &bytes, None, stored, 0.001).unwrap_err();
    assert!(error.starts_with("golden/window.png: "), "{error}");
}

#[test]
fn a_screenshot_cut_short_is_an_error_of_the_screenshot() {
    let whole = png(4, 4, [9, 9, 9, 255]);
    let mut short = whole.clone();
    short.truncate(45);
    let error = run(&expectation(), &short, None, Stored::Image(whole), 0.001).unwrap_err();
    assert!(error.starts_with("the new screenshot: "), "{error}");
}

#[test]
fn alpha_counts_too() {
    let stored = Stored::Image(png(1, 1, [5, 5, 5, 255]));
    let bytes = png(1, 1, [5, 5, 5, 0]);
    let (result, _) = run(&expectation(), &bytes, None, stored, 0.001).unwrap();
    assert_eq!(result.differing_pixels, 1);
}

fn picture(bytes: &[u8]) -> Picture {
    Picture { width: bytes.len() as u32 / 4, height: 1, bytes: bytes.to_vec() }
}

#[test]
fn a_pixel_differs_beyond_the_tolerance_and_not_at_it() {
    let golden = picture(&[0, 0, 0, 0, 10, 10, 10, 10]);
    let actual = picture(&[8, 0, 0, 0, 10, 1, 10, 10]);
    assert_eq!(differing_pixels(&golden, &actual, 8), 1);
    assert_eq!(differing_pixels(&golden, &actual, 7), 2);
    assert_eq!(differing_pixels(&golden, &actual, 9), 0);
    assert_eq!(differing_pixels(&actual, &golden, 8), 1);
    assert_eq!(differing_pixels(&golden, &golden, 0), 0);
}

#[test]
fn a_channel_tolerance_can_be_asked_for() {
    let strict = GoldenExpectation { channel_tolerance: Some(3), ..expectation() };
    let stored = Stored::Image(png(4, 4, [100, 100, 100, 255]));
    let bytes = png(4, 4, [104, 96, 100, 255]);
    let (result, _) = run(&strict, &bytes, None, stored, 0.001).unwrap();
    assert!(!result.matched);
    assert_eq!(result.channel_tolerance, 3);
}

#[test]
fn a_mismatch_is_told_in_full() {
    assert_eq!(
        size_mismatch_detail((4, 4), (8, 4), Some("1.5"), None, false),
        "The golden is 4x4 and this run is 8x4 at a device scale of 1.5. Nothing was compared: a \
         different size is a different layout. This is what an unpinned window looks like — give \
         the script a viewport, or call set_viewport before the first step."
    );
}

/// `GPUI_MCP_UPDATE_GOLDENS=false` in a CI file must not switch on the one
/// thing that makes every golden pass.
#[test]
fn only_a_yes_turns_updating_on() {
    for on in ["1", "true", "TRUE", "yes", "on", " 1 "] {
        assert!(switch_is_on(on), "{on:?}");
    }
    for off in ["", "0", "false", "False", "no", "off", "2", "update"] {
        assert!(!switch_is_on(off), "{off:?}");
    }
}

#[test]
fn the_actual_image_sits_beside_the_golden() {
    assert_eq!(
        actual_path(&parse_path("tests/golden/sidebar.png")),
        parse_path("tests/golden/sidebar.actual.png")
    );
}

#[test]
fn a_name_without_an_extension_keeps_all_of_itself() {
    assert_eq!(actual_name("golden"), "golden.actual.png");
    assert_eq!(actual_name("/a/.hidden"), "/a/.hidden.actual.png");
    assert_eq!(actual_name("a/b.actual.png"), "a/b.actual.actual.png");
    assert_eq!(actual_name("a/.."), "a/../.actual.png");
}

#[test]
fn a_comparison_asks_for_every_pixel() {
    assert_eq!(screenshot_params(&expectation()).compact(), "{\"max_width\":0}");
    let asked = GoldenExpectation {
        element_id: Some("a".into()),
        window_id: Some("w".into()),
        ..expectation()
    };
    assert_eq!(
        screenshot_params(&asked).compact(),
        "{\"max_width\":0,\"element_id\":\"a\",\"window_id\":\"w\"}"
    );
}

#[test]
fn the_golden_path_keeps_its_spelling() {
    for golden in [
        "a//b.png", "./x.png", "a/./b.png", "a/b.png/", "/x", "/", "", "..", "a/..", "x", ".x",
        "x.", "a.b.c", "//x//y.png", "../g/s.png", "a/.", "é/ü.png",
    ] {
        let path = std::path::Path::new(golden);
        let mut name = path.file_stem().unwrap_or_default().to_os_string();
        name.push(".actual.png");
        let expected = path.with_file_name(name);
        assert_eq!(actual_name(golden), expected.to_str().unwrap(), "{golden}");
        assert_eq!(
            actual_path(&parse_path(golden)),
            parse_path(expected.to_str().unwrap()),
            "{golden}"
        );
    }
}

#[test]
fn a_golden_is_placed_by_its_size() {
    let picture = || Picture { width: 2, height: 1, bytes: vec![0; 8] };
    assert!(matches!(
        place_golden(&expectation(), (2, 1), Ok(picture())),
        Standing::SameSize(found) if found.bytes.len() == 8
    ));
    assert!(matches!(
        place_golden(&expectation(), (1, 2), Ok(picture())),
        Standing::OtherSize((2, 1))
    ));
    assert!(matches!(
        place_golden(&expectation(), (1, 2), Err("broken".into())),
        Standing::Unreadable(message) if message == "golden/window.png: broken"
    ));
    assert_eq!(read_size(Ok((3, 4))), Ok((3, 4)));
    assert_eq!(read_size(Err("x".into())), Err("the new screenshot: x".into()));
    assert_eq!(count_differing(&expectation(), &picture(), Ok(picture())), Ok(0));
    assert_eq!(
        count_differing(&expectation(), &picture(), Err("x".into())),
        Err("the new screenshot: x".into())
    );
}

/// What a run wrote is what the next run of the same window matches.
#[test]
fn a_golden_just_written_matches_the_next_run() {
    let strict = GoldenExpectation { channel_tolerance: Some(0), ..expectation() };
    for bytes in [png(4, 4, [10, 20, 30, 255]), png(1, 7, [0, 0, 0, 0])] {
        let (_, keep) = run(&strict, &bytes, None, Stored::Missing, 0.0).unwrap();
        assert_eq!(keep, Keep::AsGolden);
        let again = Stored::Image(bytes.clone());
        let (result, keep) = run(&strict, &bytes, Some("2"), again, 0.0).unwrap();
        assert!(result.compared && result.matched && !result.created);
        assert_eq!(result.differing_pixels, 0);
        assert_eq!((result.actual, result.detail), (None, None));
        assert_eq!(keep, Keep::Nowhere);
    }
}
