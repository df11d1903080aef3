//! Golden screenshots: does the window still look the way it looked?
//!
//! This lives in the server rather than the app for the same reason recording
//! does — the golden files sit next to the script that references them, and
//! both are artefacts of a test run, not of the application.
//!
//! ## What "matches" means here
//!
//! Two images match when they are the same size and few enough pixels differ
//! by enough. Both halves of that need a number, and neither number is a
//! perceptual metric:
//!
//! - [`GoldenExpectation::channel_tolerance`] is how far one channel may move
//!   before a pixel counts as different at all. Text rendering, subpixel
//!   positioning and GPU filtering shift edge pixels by a few levels between
//!   runs on the same machine.
//! - The [`Allowance`] says whether the fraction of pixels that differ is one
//!   that is allowed. A blinking cursor is a handful of pixels; a changed
//!   layout is not.
//!
//! A size mismatch is reported on its own, because nothing was compared and
//! the causes are few enough to name.
use vstd::prelude::*;
use vstd::string::*;

use crate::json;
use crate::json::{Fields, Json, JsonValue};
use crate::path;
use crate::text;

pub use crate::path::actual_path;

verus! {

/// Name of the tool that compares the window against a stored image.
/// Server-local, like the guide and the replay: the golden files live beside
/// the script, not inside the app.
pub const TOOL_NAME: &'static str = "expect_screenshot";

/// Whether a tool is the one that compares the window against a stored image.
pub fn is_golden(tool: &str) -> (r: bool)
    ensures
        r == (tool@ == TOOL_NAME@),
{
    text::same_text(tool, TOOL_NAME)
}

/// How far a single channel may move before a pixel counts as different.
pub const DEFAULT_CHANNEL_TOLERANCE: u8 = 8;

/// What the `expect_screenshot` tool is asked.
#[derive(Debug)]
pub struct GoldenExpectation {
    /// The golden file. Written on the first run, compared afterwards.
    ///
    /// Relative to the working directory when called as a tool. In a script it
    /// is relative to the script file.
    pub path: String,
    /// Compare only this element, as `take_screenshot` would crop it.
    pub element_id: Option<String>,
    pub window_id: Option<String>,
    /// See the module docs. Default [`DEFAULT_CHANNEL_TOLERANCE`].
    pub channel_tolerance: Option<u8>,
}

/// What a comparison found.
#[derive(Debug)]
pub struct Comparison {
    pub matched: bool,
    /// True when pixels were actually compared. False when the golden was
    /// written or rewritten instead, and false on a size mismatch: the
    /// differing counts are zero then because nothing was looked at, not
    /// because nothing differed.
    pub compared: bool,
    /// True when the golden did not exist and has just been written.
    pub created: bool,
    pub golden: String,
    pub actual: Option<String>,
    /// The size of this run's image, in device pixels.
    pub width: u32,
    pub height: u32,
    pub differing_pixels: u64,
    pub total_pixels: u64,
    pub channel_tolerance: u8,
    pub detail: Option<String>,
}

/// What a [`Comparison`] holds.
pub struct ComparisonValue {
    pub matched: bool,
    pub compared: bool,
    pub created: bool,
    pub golden: Seq<char>,
    pub actual: Option<Seq<char>>,
    pub width: u32,
    pub height: u32,
    pub differing_pixels: nat,
    pub total_pixels: nat,
    pub channel_tolerance: u8,
    pub detail: Option<Seq<char>>,
}

impl View for Comparison {
    type V = ComparisonValue;

    open spec fn view(&self) -> ComparisonValue {
        ComparisonValue {
            matched: self.matched,
            compared: self.compared,
            created: self.created,
            golden: self.golden@,
            actual: text::maybe_owned(self.actual),
            width: self.width,
            height: self.height,
            differing_pixels: self.differing_pixels as nat,
            total_pixels: self.total_pixels as nat,
            channel_tolerance: self.channel_tolerance,
            detail: text::maybe_owned(self.detail),
        }
    }
}

/// Whether a switch says yes.
pub open spec fn on(value: Seq<char>) -> bool {
    let said = text::lowered(text::trimmed(value));
    said == "1"@ || said == "true"@ || said == "yes"@ || said == "on"@
}

/// `1` and its spellings mean on. Everything else means off — including
/// `false`, which a CI file exporting a YAML boolean produces as a string. The
/// one switch that makes every golden pass must not be turned on by a value
/// that says no.
pub fn switch_is_on(value: &str) -> (r: bool)
    ensures
        r == on(value@),
{
    let said: &str = text::trim(value);
    text::same_lowered(said, "1") || text::same_lowered(said, "true") || text::same_lowered(
        said,
        "yes",
    ) || text::same_lowered(said, "on")
}

/// An image, four bytes to a pixel: red, green, blue and alpha.
#[derive(Debug)]
pub struct Picture {
    pub width: u32,
    pub height: u32,
    pub bytes: Vec<u8>,
}

/// The size that the header of a PNG declares, or what is wrong with it.
pub uninterp spec fn png_size(bytes: Seq<u8>) -> Result<(u32, u32), Seq<char>>;

/// The size and the pixels of a PNG, four bytes to a pixel, or what is wrong
/// with it.
pub uninterp spec fn png_pixels(bytes: Seq<u8>) -> Result<(u32, u32, Seq<u8>), Seq<char>>;

/// What a size that was read from a header says.
pub open spec fn size_of(read: Result<(u32, u32), String>) -> Result<(u32, u32), Seq<char>> {
    match read {
        Ok(size) => Ok(size),
        Err(error) => Err(error@),
    }
}

/// What a picture that was decoded holds.
pub open spec fn pixels_of(read: Result<Picture, String>) -> Result<
    (u32, u32, Seq<u8>),
    Seq<char>,
> {
    match read {
        Ok(picture) => Ok((picture.width, picture.height, picture.bytes@)),
        Err(error) => Err(error@),
    }
}

/// The size a PNG declares, read from its header alone:
/// `image::ImageReader::into_dimensions` on a reader of the format PNG. What it
/// answers, and the text of its error, depend on the bytes alone. What has no
/// header that can be read has no pixels that can be.
#[verifier::external_body]
fn png_dimensions(bytes: &[u8]) -> (r: Result<(u32, u32), String>)
    ensures
        size_of(r) == png_size(bytes@),
        r is Err ==> png_pixels(bytes@) is Err,
{
    let reader = image::ImageReader::with_format(
        std::io::Cursor::new(bytes),
        image::ImageFormat::Png,
    );
    reader.into_dimensions().map_err(|e| e.to_string())
}

/// The pixels of a PNG: `image::load_from_memory_with_format` with the format
/// PNG, and `into_rgba8` on what it gives. What it answers, and the text of its
/// error, depend on the bytes alone, memory for the pixels permitting; a
/// picture has the size that the header declares, and four bytes for each pixel
/// of it.
#[verifier::external_body]
fn decode(bytes: &[u8]) -> (r: Result<Picture, String>)
    ensures
        pixels_of(r) == png_pixels(bytes@),
        r matches Ok(picture) ==> picture.bytes@.len() == 4 * (picture.width * picture.height),
        r matches Ok(picture) ==> png_size(bytes@) == size_of(Ok((picture.width, picture.height))),
{
    let decoded = image::load_from_memory_with_format(bytes, image::ImageFormat::Png);
    let image = decoded.map_err(|e| e.to_string())?.into_rgba8();
    let (width, height) = image.dimensions();
    Ok(Picture { width, height, bytes: image.into_raw() })
}

/// How far two levels are apart.
pub open spec fn apart(a: u8, b: u8) -> int {
    if a >= b {
        a - b
    } else {
        b - a
    }
}

/// Whether a pixel moved further than the tolerance on any channel. Alpha
/// counts too.
pub open spec fn differs(golden: Seq<u8>, actual: Seq<u8>, pixel: int, tolerance: u8) -> bool {
    ||| apart(golden[4 * pixel], actual[4 * pixel]) > tolerance
    ||| apart(golden[4 * pixel + 1], actual[4 * pixel + 1]) > tolerance
    ||| apart(golden[4 * pixel + 2], actual[4 * pixel + 2]) > tolerance
    ||| apart(golden[4 * pixel + 3], actual[4 * pixel + 3]) > tolerance
}

/// How many of the first `n` pixels moved further than the tolerance.
pub open spec fn differing(golden: Seq<u8>, actual: Seq<u8>, n: int, tolerance: u8) -> nat
    decreases n,
{
    if n <= 0 {
        0
    } else {
        differing(golden, actual, n - 1, tolerance) + (if differs(
            golden,
            actual,
            n - 1,
            tolerance,
        ) {
            1nat
        } else {
            0nat
        })
    }
}

/// How many pixels two runs of bytes have in common.
pub open spec fn common_pixels(golden: Seq<u8>, actual: Seq<u8>) -> int {
    if golden.len() <= actual.len() {
        golden.len() as int / 4
    } else {
        actual.len() as int / 4
    }
}

fn levels_apart(a: u8, b: u8) -> (r: u8)
    ensures
        r == apart(a, b),
{
    if a >= b {
        a - b
    } else {
        b - a
    }
}

/// Count the pixels that moved further than the tolerance on any channel.
///
/// Alpha counts too. A screenshot with a transparent region that became
/// opaque looks identical over a white page and is not the same image.
pub fn differing_pixels(golden: &Picture, actual: &Picture, tolerance: u8) -> (r: u64)
    ensures
        r == differing(
            golden.bytes@,
            actual.bytes@,
            common_pixels(golden.bytes@, actual.bytes@),
            tolerance,
        ),
        r <= common_pixels(golden.bytes@, actual.bytes@),
{
    let n: usize = if golden.bytes.len() <= actual.bytes.len() {
        golden.bytes.len() / 4
    } else {
        actual.bytes.len() / 4
    };
    let room: usize = golden.bytes.len();
    let mut count: u64 = 0;
    let mut i: usize = 0;
    while i < n
        invariant
            i <= n,
            room == golden.bytes@.len(),
            4 * n <= room,
            n == common_pixels(golden.bytes@, actual.bytes@),
            count == differing(golden.bytes@, actual.bytes@, i as int, tolerance),
            count <= i,
        decreases n - i,
    {
        let k: usize = 4 * i;
        if levels_apart(golden.bytes[k], actual.bytes[k]) > tolerance || levels_apart(
            golden.bytes[k + 1],
            actual.bytes[k + 1],
        ) > tolerance || levels_apart(golden.bytes[k + 2], actual.bytes[k + 2]) > tolerance
            || levels_apart(golden.bytes[k + 3], actual.bytes[k + 3]) > tolerance {
            count += 1;
        }
        i += 1;
    }
    count
}

/// No pixel of an image differs from itself, whatever the tolerance.
pub proof fn lemma_an_image_matches_itself(bytes: Seq<u8>, n: int, tolerance: u8)
    ensures
        differing(bytes, bytes, n, tolerance) == 0,
    decreases n,
{
    if n > 0 {
        lemma_an_image_matches_itself(bytes, n - 1, tolerance);
    }
}

/// What counts as different under a tolerance counts under every smaller one.
pub proof fn lemma_a_tolerance_only_forgives(
    golden: Seq<u8>,
    actual: Seq<u8>,
    n: int,
    smaller: u8,
    larger: u8,
)
    requires
        smaller <= larger,
    ensures
        differing(golden, actual, n, larger) <= differing(golden, actual, n, smaller),
    decreases n,
{
    if n > 0 {
        lemma_a_tolerance_only_forgives(golden, actual, n - 1, smaller, larger);
    }
}

/// Which of two images is the golden makes no difference to how many pixels
/// differ.
pub proof fn lemma_differing_is_symmetric(a: Seq<u8>, b: Seq<u8>, n: int, tolerance: u8)
    ensures
        differing(a, b, n, tolerance) == differing(b, a, n, tolerance),
    decreases n,
{
    if n > 0 {
        lemma_differing_is_symmetric(a, b, n - 1, tolerance);
    }
}

/// The tolerance that an expectation asks for.
pub open spec fn tolerance_of(expectation: GoldenExpectation) -> u8 {
    match expectation.channel_tolerance {
        Some(tolerance) => tolerance,
        None => DEFAULT_CHANNEL_TOLERANCE,
    }
}

fn tolerance(expectation: &GoldenExpectation) -> (r: u8)
    ensures
        r == tolerance_of(*expectation),
{
    match expectation.channel_tolerance {
        Some(tolerance) => tolerance,
        None => DEFAULT_CHANNEL_TOLERANCE,
    }
}

fn pixels_in(width: u32, height: u32) -> (r: u64)
    ensures
        r == width * height,
{
    proof {
        assert(width * height <= 0xffff_ffff * 0xffff_ffff) by (nonlinear_arith)
            requires
                0 <= width <= 0xffff_ffff,
                0 <= height <= 0xffff_ffff,
        ;
    }
    width as u64 * height as u64
}

/// What a comparison says where the golden was written instead of compared.
pub open spec fn written_value(
    expectation: GoldenExpectation,
    width: u32,
    height: u32,
    created: bool,
) -> ComparisonValue {
    ComparisonValue {
        matched: true,
        compared: false,
        created,
        golden: expectation.path@,
        actual: None,
        width,
        height,
        differing_pixels: 0,
        total_pixels: (width * height) as nat,
        channel_tolerance: tolerance_of(expectation),
        detail: Some(
            if created {
                "Wrote "@ + expectation.path@
                    + " — there was nothing to compare against yet. Look at it before trusting the next run."@
            } else {
                "GPUI_MCP_UPDATE_GOLDENS is set, so "@ + expectation.path@
                    + " was rewritten rather than compared."@
            },
        ),
    }
}

/// The comparison where the golden is written instead of compared: because
/// there was none yet, or because the run updates goldens.
///
/// The step passes — there was nothing to compare against — and says so,
/// because a run that silently creates its own expectations proves nothing.
pub fn written(expectation: &GoldenExpectation, width: u32, height: u32, created: bool) -> (r:
    Comparison)
    ensures
        r@ == written_value(*expectation, width, height, created),
{
    let detail: String = if created {
        let mut out: String = "Wrote ".to_owned();
        out.append(expectation.path.as_str());
        out.append(
            " — there was nothing to compare against yet. Look at it before trusting the next run.",
        );
        out
    } else {
        let mut out: String = "GPUI_MCP_UPDATE_GOLDENS is set, so ".to_owned();
        out.append(expectation.path.as_str());
        out.append(" was rewritten rather than compared.");
        out
    };
    Comparison {
        matched: true,
        compared: false,
        created,
        golden: expectation.path.clone(),
        actual: None,
        width,
        height,
        differing_pixels: 0,
        total_pixels: pixels_in(width, height),
        channel_tolerance: tolerance(expectation),
        detail: Some(detail),
    }
}

/// Where the failing image of a golden goes, as text: the golden's own path, up
/// to its name, and then the new name.
pub open spec fn actual_text(golden: Seq<char>) -> Seq<char> {
    match path::file_stem_of(path::parts_in(golden)) {
        Some(stem) => path::text_under(path::parent_text(golden), stem + ".actual.png"@),
        None => path::text_under(golden, ".actual.png"@),
    }
}

/// Where the failing image goes: beside the golden.
///
/// A failure that only reports a percentage cannot be acted on. The two files
/// side by side can be opened and diffed.
pub fn actual_name(golden: &str) -> (r: String)
    ensures
        r@ == actual_text(golden@),
{
    match path::file_stem(&path::parse_path(golden)) {
        Some(stem) => path::name_under(
            path::parent_of(golden),
            stem.concat(".actual.png").as_str(),
        ),
        None => path::name_under(golden, ".actual.png"),
    }
}

/// A size as text.
pub open spec fn dimensions_text(size: (u32, u32)) -> Seq<char> {
    text::decimal_of(size.0 as nat) + "x"@ + text::decimal_of(size.1 as nat)
}

fn dimensions(size: (u32, u32)) -> (r: String)
    ensures
        r@ == dimensions_text(size),
{
    let mut out: String = text::decimal(size.0 as u64);
    out.append("x");
    out.append(text::decimal(size.1 as u64).as_str());
    out
}

pub const SAME_FACTOR: &'static str = "), which is what a different display scale looks like: a golden is in device pixels, so it only matches on a display with the scale factor it was taken at. If the display is the same, the window was not pinned — give the script a viewport, or call set_viewport before the first step.";

pub const ELEMENT_CHANGED: &'static str = " With element_id set, either the element itself changed size, or the window was not pinned — give the script a viewport, or call set_viewport before the first step.";

pub const NOT_PINNED: &'static str = " This is what an unpinned window looks like — give the script a viewport, or call set_viewport before the first step.";

/// What a size mismatch can mean, in the order worth checking.
pub open spec fn mismatch_text(
    golden: (u32, u32),
    actual: (u32, u32),
    scale: Option<Seq<char>>,
    factor: Option<Seq<char>>,
    cropped: bool,
) -> Seq<char> {
    "The golden is "@ + dimensions_text(golden) + " and this run is "@ + dimensions_text(actual) + (
    match scale {
        Some(scale) => " at a device scale of "@ + scale,
        None => ""@,
    }) + ". Nothing was compared: a different size is a different layout."@ + (match factor {
        Some(factor) => " Both sides differ by the same factor ("@ + factor + SAME_FACTOR@,
        None => if cropped {
            ELEMENT_CHANGED@
        } else {
            NOT_PINNED@
        },
    })
}

/// Name what a size mismatch can mean, in the order worth checking.
///
/// The image is in device pixels and a viewport in logical ones, so the same
/// pinned window on a display with a different scale factor is a different
/// image — and that case is recognisable, because both sides grow by the same
/// `factor`. A window that was not pinned is the other cause, and a cropped
/// element that changed its own size the third.
pub fn size_mismatch_detail(
    golden: (u32, u32),
    actual: (u32, u32),
    scale: Option<&str>,
    factor: Option<&str>,
    cropped: bool,
) -> (r: String)
    ensures
        r@ == mismatch_text(golden, actual, text::maybe(scale), text::maybe(factor), cropped),
{
    let mut cause: String = String::new();
    match factor {
        Some(factor) => {
            cause.append(" Both sides differ by the same factor (");
            cause.append(factor);
            cause.append(SAME_FACTOR);
        },
        None => {
            if cropped {
                cause.append(ELEMENT_CHANGED);
            } else {
                cause.append(NOT_PINNED);
            }
        },
    }
    let mut at_scale: String = "".to_owned();
    if let Some(scale) = scale {
        at_scale.append(" at a device scale of ");
        at_scale.append(scale);
    }
    proof {
        reveal_strlit("");
        assert(""@ =~= Seq::empty());
        assert(at_scale@ =~= match scale {
            Some(scale) => " at a device scale of "@ + scale@,
            None => ""@,
        });
        assert(cause@ =~= match factor {
            Some(factor) => " Both sides differ by the same factor ("@ + factor@ + SAME_FACTOR@,
            None => if cropped {
                ELEMENT_CHANGED@
            } else {
                NOT_PINNED@
            },
        });
    }
    let mut detail: String = "The golden is ".to_owned();
    detail.append(dimensions(golden).as_str());
    detail.append(" and this run is ");
    detail.append(dimensions(actual).as_str());
    detail.append(at_scale.as_str());
    detail.append(". Nothing was compared: a different size is a different layout.");
    detail.append(cause.as_str());
    detail
}

/// What a comparison says where the two images are not the same size.
pub open spec fn other_size_value(
    expectation: GoldenExpectation,
    golden: (u32, u32),
    actual: (u32, u32),
    scale: Option<Seq<char>>,
    factor: Option<Seq<char>>,
) -> ComparisonValue {
    ComparisonValue {
        matched: false,
        compared: false,
        created: false,
        golden: expectation.path@,
        actual: Some(actual_text(expectation.path@)),
        width: actual.0,
        height: actual.1,
        differing_pixels: 0,
        total_pixels: (actual.0 * actual.1) as nat,
        channel_tolerance: tolerance_of(expectation),
        detail: Some(
            mismatch_text(golden, actual, scale, factor, expectation.element_id is Some),
        ),
    }
}

/// The comparison where the two images are not the same size: nothing is
/// counted as differing, because nothing was compared.
pub fn other_size(
    expectation: &GoldenExpectation,
    golden: (u32, u32),
    actual: (u32, u32),
    scale: Option<&str>,
    factor: Option<&str>,
) -> (r: Comparison)
    ensures
        r@ == other_size_value(*expectation, golden, actual, text::maybe(scale), text::maybe(factor)),
{
    Comparison {
        matched: false,
        compared: false,
        created: false,
        golden: expectation.path.clone(),
        actual: Some(actual_name(expectation.path.as_str())),
        width: actual.0,
        height: actual.1,
        differing_pixels: 0,
        total_pixels: pixels_in(actual.0, actual.1),
        channel_tolerance: tolerance(expectation),
        detail: Some(
            size_mismatch_detail(golden, actual, scale, factor, expectation.element_id.is_some()),
        ),
    }
}

/// Whether the fraction of pixels that differ is one that is allowed, and both
/// as percentages.
#[derive(Debug)]
pub struct Allowance {
    pub within: bool,
    pub differing_percent: String,
    pub allowed_percent: String,
}

/// What a comparison says where the pixels were compared.
pub open spec fn settled_value(
    expectation: GoldenExpectation,
    size: (u32, u32),
    count: nat,
    allowance: Allowance,
) -> ComparisonValue {
    let total = (size.0 * size.1) as nat;
    let actual = actual_text(expectation.path@);
    ComparisonValue {
        matched: allowance.within,
        compared: true,
        created: false,
        golden: expectation.path@,
        actual: if allowance.within {
            None
        } else {
            Some(actual)
        },
        width: size.0,
        height: size.1,
        differing_pixels: count,
        total_pixels: total,
        channel_tolerance: tolerance_of(expectation),
        detail: if allowance.within {
            None
        } else {
            Some(
                text::decimal_of(count) + " of "@ + text::decimal_of(total)
                    + " pixels differ by more than "@ + text::decimal_of(
                    tolerance_of(expectation) as nat,
                ) + " per channel ("@ + allowance.differing_percent@ + "% against a "@
                    + allowance.allowed_percent@ + "% allowance). This run was written to "@
                    + actual
                    + " — open both. If the change is intended, re-run with GPUI_MCP_UPDATE_GOLDENS=1."@,
            )
        },
    }
}

/// The comparison where the pixels were compared and `count` of them differ.
pub fn settled(
    expectation: &GoldenExpectation,
    size: (u32, u32),
    count: u64,
    allowance: &Allowance,
) -> (r: Comparison)
    ensures
        r@ == settled_value(*expectation, size, count as nat, *allowance),
{
    let total: u64 = pixels_in(size.0, size.1);
    let mut actual: Option<String> = None;
    let mut detail: Option<String> = None;
    if !allowance.within {
        let name: String = actual_name(expectation.path.as_str());
        let mut out: String = text::decimal(count);
        out.append(" of ");
        out.append(text::decimal(total).as_str());
        out.append(" pixels differ by more than ");
        out.append(text::decimal(tolerance(expectation) as u64).as_str());
        out.append(" per channel (");
        out.append(allowance.differing_percent.as_str());
        out.append("% against a ");
        out.append(allowance.allowed_percent.as_str());
        out.append("% allowance). This run was written to ");
        out.append(name.as_str());
        out.append(
            " — open both. If the change is intended, re-run with GPUI_MCP_UPDATE_GOLDENS=1.",
        );
        actual = Some(name);
        detail = Some(out);
    }
    Comparison {
        matched: allowance.within,
        compared: true,
        created: false,
        golden: expectation.path.clone(),
        actual,
        width: size.0,
        height: size.1,
        differing_pixels: count,
        total_pixels: total,
        channel_tolerance: tolerance(expectation),
        detail,
    }
}

/// The size of the new image, once its header was read.
pub open spec fn size_read(size: Result<(u32, u32), Seq<char>>) -> Result<(u32, u32), Seq<char>> {
    match size {
        Ok(size) => Ok(size),
        Err(error) => Err("the new screenshot: "@ + error),
    }
}

/// The size of the new image, or what is wrong with it, said of it.
pub fn read_size(size: Result<(u32, u32), String>) -> (r: Result<(u32, u32), String>)
    ensures
        size_of(r) == size_read(size_of(size)),
{
    match size {
        Ok(size) => Ok(size),
        Err(error) => Err("the new screenshot: ".to_owned().concat(error.as_str())),
    }
}

/// How a golden that was decoded stands to the new image.
#[derive(Debug)]
pub enum Standing {
    /// It is no image, for this reason.
    Unreadable(String),
    /// It has this other size.
    OtherSize((u32, u32)),
    /// It has the same size.
    SameSize(Picture),
}

/// Hold a golden that was decoded against the size of the new image.
pub fn place_golden(
    expectation: &GoldenExpectation,
    size: (u32, u32),
    golden: Result<Picture, String>,
) -> (r: Standing)
    ensures
        match r {
            Standing::Unreadable(message) => golden is Err && message@ == expectation.path@ + ": "@
                + golden->Err_0@,
            Standing::OtherSize(other) => golden is Ok && other == (
                golden->Ok_0.width,
                golden->Ok_0.height,
            ) && other != size,
            Standing::SameSize(picture) => golden == Ok::<Picture, String>(picture) && (
                picture.width,
                picture.height,
            ) == size,
        },
{
    match golden {
        Err(error) => {
            let mut out: String = expectation.path.clone();
            out.append(": ");
            out.append(error.as_str());
            Standing::Unreadable(out)
        },
        Ok(picture) => if picture.width != size.0 || picture.height != size.1 {
            Standing::OtherSize((picture.width, picture.height))
        } else {
            Standing::SameSize(picture)
        },
    }
}

/// How many pixels of the new image differ from the golden, or what is wrong
/// with the new image.
pub open spec fn counted(
    expectation: GoldenExpectation,
    golden: Seq<u8>,
    actual: Result<(u32, u32, Seq<u8>), Seq<char>>,
) -> Result<nat, Seq<char>> {
    match actual {
        Ok(actual) => Ok(count_of(expectation, golden, actual.2)),
        Err(error) => Err("the new screenshot: "@ + error),
    }
}

/// Count the pixels of the new image that differ from the golden.
pub fn count_differing(
    expectation: &GoldenExpectation,
    golden: &Picture,
    actual: Result<Picture, String>,
) -> (r: Result<u64, String>)
    ensures
        (match r {
            Ok(count) => Ok::<nat, Seq<char>>(count as nat),
            Err(message) => Err(message@),
        }) == counted(*expectation, golden.bytes@, pixels_of(actual)),
        r matches Ok(count) ==> count <= golden.bytes@.len() / 4,
{
    match actual {
        Ok(actual) => Ok(differing_pixels(golden, &actual, tolerance(expectation))),
        Err(error) => Err("the new screenshot: ".to_owned().concat(error.as_str())),
    }
}

/// What there is to compare with.
#[derive(Debug)]
pub enum Stored {
    /// There is no golden yet.
    Missing,
    /// There is one, and this run rewrites goldens.
    Updating,
    /// There is one, holding these bytes.
    Image(Vec<u8>),
    /// There is one, and it cannot be read.
    Unreadable(String),
}

/// What is to be written once a comparison is done: the new image over the
/// golden, beside it, or nowhere.
#[derive(Debug, Clone, Copy, PartialEq, Eq, Structural)]
pub enum Keep {
    AsGolden,
    BesideGolden,
    Nowhere,
}

/// What a comparison comes to, or why it cannot be made: given the size of the
/// new image, what is stored, the pixels of the two images, and what the
/// caller says of a size mismatch (`factor`) and of a count (`allowance`).
pub open spec fn compared(
    expectation: GoldenExpectation,
    size: Result<(u32, u32), Seq<char>>,
    stored: Stored,
    actual_pixels: Result<(u32, u32, Seq<u8>), Seq<char>>,
    scale: Option<Seq<char>>,
    factor: Option<Seq<char>>,
    allowance: Allowance,
) -> Result<(ComparisonValue, Keep), Seq<char>> {
    match size {
        Err(error) => Err("the new screenshot: "@ + error),
        Ok(size) => match stored {
            Stored::Missing => Ok(
                (written_value(expectation, size.0, size.1, true), Keep::AsGolden),
            ),
            Stored::Updating => Ok(
                (written_value(expectation, size.0, size.1, false), Keep::AsGolden),
            ),
            Stored::Unreadable(error) => Err("Cannot read "@ + expectation.path@ + ": "@ + error@),
            Stored::Image(bytes) => match png_pixels(bytes@) {
                Err(error) => Err(expectation.path@ + ": "@ + error),
                Ok(golden) => if (golden.0, golden.1) != size {
                    Ok(
                        (
                            other_size_value(
                                expectation,
                                (golden.0, golden.1),
                                size,
                                scale,
                                factor,
                            ),
                            Keep::BesideGolden,
                        ),
                    )
                } else {
                    match actual_pixels {
                        Err(error) => Err("the new screenshot: "@ + error),
                        Ok(actual) => Ok(
                            (
                                settled_value(
                                    expectation,
                                    size,
                                    count_of(expectation, golden.2, actual.2),
                                    allowance,
                                ),
                                if allowance.within {
                                    Keep::Nowhere
                                } else {
                                    Keep::BesideGolden
                                },
                            ),
                        ),
                    }
                },
            },
        },
    }
}

/// How many pixels differ, under the tolerance that an expectation asks for.
pub open spec fn count_of(
    expectation: GoldenExpectation,
    golden: Seq<u8>,
    actual: Seq<u8>,
) -> nat {
    differing(golden, actual, common_pixels(golden, actual), tolerance_of(expectation))
}

/// Whether the caller's two judgements are those that were asked for: of the
/// two sizes where they differ, and of the count and the total where they do
/// not.
pub open spec fn judgements<
    S: FnOnce((u32, u32), (u32, u32)) -> Option<String>,
    A: FnOnce(u64, u64) -> Allowance,
>(
    judge_sizes: S,
    judge_count: A,
    expectation: GoldenExpectation,
    size: Result<(u32, u32), Seq<char>>,
    stored: Stored,
    actual_pixels: Result<(u32, u32, Seq<u8>), Seq<char>>,
    factor: Option<String>,
    allowance: Allowance,
) -> bool {
    match (size, stored) {
        (Ok(size), Stored::Image(bytes)) => match png_pixels(bytes@) {
            Ok(golden) => if (golden.0, golden.1) != size {
                call_ensures(judge_sizes, ((golden.0, golden.1), size), factor)
            } else {
                match actual_pixels {
                    Ok(actual) => exists|count: u64, total: u64|
                        #![trigger call_ensures(judge_count, (count, total), allowance)]
                        count == count_of(expectation, golden.2, actual.2) && total == size.0
                            * size.1 && call_ensures(judge_count, (count, total), allowance),
                    Err(_) => true,
                }
            },
            Err(_) => true,
        },
        _ => true,
    }
}

/// A comparison that found no pixel changed.
pub open spec fn unchanged(c: ComparisonValue) -> bool {
    &&& c.compared && c.matched && !c.created
    &&& c.differing_pixels == 0
    &&& c.actual is None
    &&& c.detail is None
}

/// Compare freshly taken PNG bytes against the golden that is stored.
///
/// `scale` is the device scale the screenshot was rendered at, when the app
/// reported one; it only matters for naming the cause of a size mismatch.
/// `judge_sizes` says by which factor both sides of two sizes differ, where it
/// is one; `judge_count` says whether a count of differing pixels, out of a
/// total, is allowed.
///
/// The header is enough to know the size, and to know these bytes are a PNG
/// before they are stored as one. Decoding the pixels waits until there is a
/// golden to compare them with.
pub fn compare<
    S: FnOnce((u32, u32), (u32, u32)) -> Option<String>,
    A: FnOnce(u64, u64) -> Allowance,
>(
    expectation: &GoldenExpectation,
    actual_png: &[u8],
    scale: Option<&str>,
    stored: Stored,
    judge_sizes: S,
    judge_count: A,
) -> (r: Result<(Comparison, Keep), String>)
    requires
        forall|golden: (u32, u32), actual: (u32, u32)|
            call_requires(judge_sizes, (golden, actual)),
        forall|count: u64, total: u64| call_requires(judge_count, (count, total)),
    ensures
        exists|factor: Option<String>, allowance: Allowance| #[trigger]
            judgements(
                judge_sizes,
                judge_count,
                *expectation,
                png_size(actual_png@),
                stored,
                png_pixels(actual_png@),
                factor,
                allowance,
            ) && result_of(r) == compared(
                *expectation,
                png_size(actual_png@),
                stored,
                png_pixels(actual_png@),
                text::maybe(scale),
                text::maybe_owned(factor),
                allowance,
            ),
        r matches Ok((comparison, _)) ==> comparison.differing_pixels <= comparison.total_pixels,
        // The same image again matches, wherever no difference is none too many.
        stored matches Stored::Image(bytes) && bytes@ == actual_png@ && png_pixels(
            actual_png@,
        ) is Ok && (forall|total: u64, allowance: Allowance| #[trigger]
            call_ensures(judge_count, (0u64, total), allowance) ==> allowance.within) ==> (
        r matches Ok((comparison, keep)) && unchanged(comparison@) && keep == Keep::Nowhere),
{
    let ghost no_factor: Option<String> = None;
    let ghost any: Allowance = arbitrary();
    let ghost whole_stored = stored;
    let ghost declared = png_size(actual_png@);
    let ghost pixels = png_pixels(actual_png@);
    let size: (u32, u32) = match read_size(png_dimensions(actual_png)) {
        Ok(size) => size,
        Err(message) => {
            proof {
                assert(judgements(
                    judge_sizes,
                    judge_count,
                    *expectation,
                    declared,
                    whole_stored,
                    pixels,
                    no_factor,
                    any,
                ));
            }
            return Err(message);
        },
    };
    proof {
        assert(!(stored is Image) ==> judgements(
            judge_sizes,
            judge_count,
            *expectation,
            declared,
            whole_stored,
            pixels,
            no_factor,
            any,
        ));
    }
    let golden_png: Vec<u8> = match stored {
        Stored::Missing => {
            return Ok((written(expectation, size.0, size.1, true), Keep::AsGolden));
        },
        Stored::Updating => {
            return Ok((written(expectation, size.0, size.1, false), Keep::AsGolden));
        },
        Stored::Unreadable(error) => {
            let mut out: String = "Cannot read ".to_owned();
            out.append(expectation.path.as_str());
            out.append(": ");
            out.append(error.as_str());
            return Err(out);
        },
        Stored::Image(bytes) => bytes,
    };
    match place_golden(expectation, size, decode(golden_png.as_slice())) {
        Standing::Unreadable(message) => {
            proof {
                assert(judgements(
                    judge_sizes,
                    judge_count,
                    *expectation,
                    declared,
                    whole_stored,
                    pixels,
                    no_factor,
                    any,
                ));
            }
            Err(message)
        },
        Standing::OtherSize(other) => {
            let factor: Option<String> = judge_sizes(other, size);
            proof {
                assert(judgements(
                    judge_sizes,
                    judge_count,
                    *expectation,
                    declared,
                    whole_stored,
                    pixels,
                    factor,
                    any,
                ));
            }
            let named: Option<&str> = match &factor {
                Some(factor) => Some(factor.as_str()),
                None => None,
            };
            Ok((other_size(expectation, other, size, scale, named), Keep::BesideGolden))
        },
        Standing::SameSize(golden) => match count_differing(
            expectation,
            &golden,
            decode(actual_png),
        ) {
            Err(message) => {
                proof {
                    assert(judgements(
                        judge_sizes,
                        judge_count,
                        *expectation,
                        declared,
                        whole_stored,
                        pixels,
                        no_factor,
                        any,
                    ));
                }
                Err(message)
            },
            Ok(count) => {
                let total: u64 = pixels_in(size.0, size.1);
                let allowance: Allowance = judge_count(count, total);
                proof {
                    lemma_an_unchanged_image_does_not_differ(*expectation, golden.bytes@);
                    assert(call_ensures(judge_count, (count, total), allowance));
                    assert(judgements(
                        judge_sizes,
                        judge_count,
                        *expectation,
                        declared,
                        whole_stored,
                        pixels,
                        no_factor,
                        allowance,
                    ));
                }
                let keep: Keep = if allowance.within {
                    Keep::Nowhere
                } else {
                    Keep::BesideGolden
                };
                Ok((settled(expectation, size, count, &allowance), keep))
            },
        },
    }
}

/// What the result of a comparison holds.
pub open spec fn result_of(r: Result<(Comparison, Keep), String>) -> Result<
    (ComparisonValue, Keep),
    Seq<char>,
> {
    match r {
        Ok((comparison, keep)) => Ok((comparison@, keep)),
        Err(error) => Err(error@),
    }
}

/// A golden passes without having been compared only where it was written in
/// this run, and is written only where there was none or the run updates
/// goldens. Nothing that is not a PNG is ever kept.
pub proof fn lemma_only_a_written_golden_passes_unseen(
    expectation: GoldenExpectation,
    size: Result<(u32, u32), Seq<char>>,
    stored: Stored,
    actual_pixels: Result<(u32, u32, Seq<u8>), Seq<char>>,
    scale: Option<Seq<char>>,
    factor: Option<Seq<char>>,
    allowance: Allowance,
)
    ensures
        ({
            let r = compared(
                expectation,
                size,
                stored,
                actual_pixels,
                scale,
                factor,
                allowance,
            );
            &&& size is Err ==> r is Err
            &&& r matches Ok((c, keep)) ==> {
                &&& keep == Keep::AsGolden <==> stored is Missing || stored is Updating
                &&& c.matched && !c.compared <==> keep == Keep::AsGolden
                &&& c.created <==> stored is Missing
                &&& c.actual is Some <==> keep == Keep::BesideGolden
                &&& c.matched <==> keep != Keep::BesideGolden
                &&& !c.compared ==> c.differing_pixels == 0
                &&& c.compared ==> stored is Image && c.matched == allowance.within
                &&& c.detail is None <==> c.compared && c.matched
            }
        }),
{
}

/// An unchanged image has no pixel that differs, whatever the tolerance.
pub proof fn lemma_an_unchanged_image_does_not_differ(
    expectation: GoldenExpectation,
    pixels: Seq<u8>,
)
    ensures
        count_of(expectation, pixels, pixels) == 0,
{
    lemma_an_image_matches_itself(
        pixels,
        common_pixels(pixels, pixels),
        tolerance_of(expectation),
    );
}

/// Whether an image decodes, and to the size it declares.
pub open spec fn same_size(
    size: Result<(u32, u32), Seq<char>>,
    pixels: Result<(u32, u32, Seq<u8>), Seq<char>>,
) -> bool {
    match (size, pixels) {
        (Ok(size), Ok((width, height, _))) => size == (width, height),
        _ => false,
    }
}

/// A golden that was just written matches on the next run: where there was none,
/// a PNG that decodes to the size it declares is kept as the golden, and the
/// same image, compared with it, has no pixel changed, whatever the tolerance,
/// so long as no difference is none too many.
pub proof fn lemma_a_written_golden_matches_the_next_run(
    expectation: GoldenExpectation,
    written: Vec<u8>,
    image: Seq<u8>,
    scales: (Option<Seq<char>>, Option<Seq<char>>),
    factors: (Option<Seq<char>>, Option<Seq<char>>),
    allowances: (Allowance, Allowance),
)
    requires
        written@ == image,
        allowances.1.within,
    ensures
        ({
            let size = png_size(image);
            let pixels = png_pixels(image);
            let first = compared(
                expectation,
                size,
                Stored::Missing,
                pixels,
                scales.0,
                factors.0,
                allowances.0,
            );
            let second = compared(
                expectation,
                size,
                Stored::Image(written),
                pixels,
                scales.1,
                factors.1,
                allowances.1,
            );
            same_size(size, pixels) ==> {
                &&& first matches Ok((c, keep)) && keep == Keep::AsGolden && c.created && c.matched
                &&& second matches Ok((c, keep)) && keep == Keep::Nowhere && unchanged(c)
            }
        }),
{
    let pixels = png_pixels(image);
    if pixels is Ok {
        let (_, _, bytes) = pixels->Ok_0;
        lemma_an_unchanged_image_does_not_differ(expectation, bytes);
    }
}

/// The arguments of the screenshot that a comparison needs: every pixel, of
/// the element and the window that were asked for.
pub open spec fn screenshot_value(expectation: GoldenExpectation) -> JsonValue {
    let whole = json::no_fields().push(("max_width"@, JsonValue::Number(json::whole_number(0))));
    let of_element = match expectation.element_id {
        Some(id) => whole.push(("element_id"@, JsonValue::Text(id@))),
        None => whole,
    };
    JsonValue::Object(
        match expectation.window_id {
            Some(id) => of_element.push(("window_id"@, JsonValue::Text(id@))),
            None => of_element,
        },
    )
}

/// The arguments of the screenshot that a comparison needs.
pub fn screenshot_params(expectation: &GoldenExpectation) -> (r: Json)
    ensures
        r@ == screenshot_value(*expectation),
{
    let mut fields: Fields = Fields::new().with("max_width", Json::whole(0));
    if let Some(id) = &expectation.element_id {
        fields = fields.with("element_id", Json::text(id.as_str()));
    }
    if let Some(id) = &expectation.window_id {
        fields = fields.with("window_id", Json::text(id.as_str()));
    }
    fields.object()
}

/// The text of where a failing image goes writes the path beside the golden.
pub proof fn lemma_actual_text(golden: Seq<char>)
    ensures
        path::parts_in(actual_text(golden)) == path::actual_parts(path::parts_in(golden)),
{
    let parts = path::parts_in(golden);
    let suffix = ".actual.png"@;
    reveal_strlit(".actual.png");
    reveal_strlit(".");
    match path::file_name(parts) {
        Some(name) => {
            path::lemma_read_paths_are_writable(golden);
            assert(parts[parts.len() - 1] == path::Part::Normal(name));
            let stem = path::stem(name);
            text::lemma_last_match(name, "."@, name.len() as int);
            assert(forall|i: int| 0 <= i < stem.len() ==> stem[i] == name[i]);
            let written = stem + suffix;
            assert(path::writable_name(written)) by {
                assert(written.len() >= 3);
                assert(forall|i: int|
                    stem.len() <= i < written.len() ==> written[i] == suffix[i - stem.len()]);
            }
            path::lemma_parent_text(golden);
            path::lemma_text_under(path::parent_text(golden), written);
        },
        None => {
            assert(suffix.len() == 11);
            assert(forall|i: int| 0 <= i < suffix.len() ==> suffix[i] != '/');
            assert(path::writable_name(suffix));
            path::lemma_text_under(golden, suffix);
        },
    }
}

/// Whether a byte moved further than the tolerance, up or down.
pub open spec fn moved(golden: Seq<u8>, actual: Seq<u8>, byte: int, tolerance: u8) -> bool {
    golden[byte] - actual[byte] > tolerance || actual[byte] - golden[byte] > tolerance
}

/// Whether any of the four bytes of a pixel moved.
pub open spec fn any_moved(golden: Seq<u8>, actual: Seq<u8>, pixel: int, tolerance: u8) -> bool {
    exists|byte: int|
        4 * pixel <= byte < 4 * pixel + 4 && #[trigger] moved(golden, actual, byte, tolerance)
}

/// A pixel differs exactly where one of its four bytes, alpha among them, moved
/// further than the tolerance.
pub proof fn lemma_a_pixel_differs_where_a_channel_moved(
    golden: Seq<u8>,
    actual: Seq<u8>,
    pixel: int,
    tolerance: u8,
)
    ensures
        differs(golden, actual, pixel, tolerance) <==> any_moved(golden, actual, pixel, tolerance),
{
    assert(moved(golden, actual, 4 * pixel, tolerance) <==> apart(
        golden[4 * pixel],
        actual[4 * pixel],
    ) > tolerance);
    assert(moved(golden, actual, 4 * pixel + 1, tolerance) <==> apart(
        golden[4 * pixel + 1],
        actual[4 * pixel + 1],
    ) > tolerance);
    assert(moved(golden, actual, 4 * pixel + 2, tolerance) <==> apart(
        golden[4 * pixel + 2],
        actual[4 * pixel + 2],
    ) > tolerance);
    assert(moved(golden, actual, 4 * pixel + 3, tolerance) <==> apart(
        golden[4 * pixel + 3],
        actual[4 * pixel + 3],
    ) > tolerance);
}

/// The pixels are counted one by one: the count is how many of the first `n`
/// have a byte that moved.
pub proof fn lemma_the_count_is_of_the_pixels_that_moved(
    golden: Seq<u8>,
    actual: Seq<u8>,
    n: nat,
    tolerance: u8,
)
    ensures
        differing(golden, actual, n as int, tolerance) == Seq::new(n, |i: int| i).filter(
            |pixel: int| any_moved(golden, actual, pixel, tolerance),
        ).len(),
    decreases n,
{
    let all = Seq::new(n, |i: int| i);
    let has = |pixel: int| any_moved(golden, actual, pixel, tolerance);
    reveal(Seq::filter);
    if n > 0 {
        lemma_the_count_is_of_the_pixels_that_moved(golden, actual, (n - 1) as nat, tolerance);
        lemma_a_pixel_differs_where_a_channel_moved(golden, actual, n - 1, tolerance);
        assert(all.drop_last() =~= Seq::new((n - 1) as nat, |i: int| i));
        assert(all.last() == n - 1);
    }
}

/// One byte that moved is enough for a count of at least one, and no byte that
/// moved makes it zero.
pub proof fn lemma_one_byte_is_enough(
    golden: Seq<u8>,
    actual: Seq<u8>,
    n: int,
    tolerance: u8,
    byte: int,
)
    requires
        0 <= byte < 4 * n,
    ensures
        moved(golden, actual, byte, tolerance) ==> differing(golden, actual, n, tolerance) >= 1,
        (forall|k: int| 0 <= k < 4 * n ==> !#[trigger] moved(golden, actual, k, tolerance))
            ==> differing(golden, actual, n, tolerance) == 0,
    decreases n,
{
    if n > 0 {
        lemma_a_pixel_differs_where_a_channel_moved(golden, actual, n - 1, tolerance);
        if byte < 4 * (n - 1) {
            lemma_one_byte_is_enough(golden, actual, n - 1, tolerance, byte);
        } else if n > 1 {
            lemma_one_byte_is_enough(golden, actual, n - 1, tolerance, 0);
        }
    }
}

/// Two images of the same size are compared over all of their pixels.
pub proof fn lemma_every_pixel_is_compared(
    golden: Seq<u8>,
    actual: Seq<u8>,
    width: int,
    height: int,
)
    requires
        0 <= width && 0 <= height,
        golden.len() == 4 * (width * height),
        actual.len() == 4 * (width * height),
    ensures
        common_pixels(golden, actual) == width * height,
{
}

/// A channel may move by the tolerance that was asked for, and by eight levels
/// where none was.
pub proof fn lemma_the_tolerance_that_holds(expectation: GoldenExpectation)
    ensures
        expectation.channel_tolerance matches Some(asked) ==> tolerance_of(expectation) == asked,
        expectation.channel_tolerance is None ==> tolerance_of(expectation) == 8,
{
}

/// Every comparison tells of the golden it was asked about, the size of the new
/// image and the tolerance; where pixels were compared, of how many of them
/// differ; and where the image is kept beside the golden, of where that is.
pub proof fn lemma_what_a_comparison_tells(
    expectation: GoldenExpectation,
    size: Result<(u32, u32), Seq<char>>,
    stored: Stored,
    actual_pixels: Result<(u32, u32, Seq<u8>), Seq<char>>,
    scale: Option<Seq<char>>,
    factor: Option<Seq<char>>,
    allowance: Allowance,
)
    ensures
        compared(expectation, size, stored, actual_pixels, scale, factor, allowance) matches Ok(
            (c, keep),
        ) ==> {
            let (width, height) = size->Ok_0;
            &&& c.golden == expectation.path@
            &&& c.width == width && c.height == height && c.total_pixels == width * height
            &&& expectation.channel_tolerance matches Some(asked) ==> c.channel_tolerance == asked
            &&& expectation.channel_tolerance is None ==> c.channel_tolerance == 8
            &&& c.actual matches Some(actual) ==> path::parts_in(actual) == path::actual_parts(
                path::parts_in(expectation.path@),
            )
            &&& c.compared ==> {
                let golden = png_pixels(stored->Image_0@)->Ok_0;
                &&& c.differing_pixels == Seq::new(
                    common_pixels(golden.2, actual_pixels->Ok_0.2) as nat,
                    |i: int| i,
                ).filter(
                    |pixel: int|
                        any_moved(golden.2, actual_pixels->Ok_0.2, pixel, c.channel_tolerance),
                ).len()
            }
        },
{
    lemma_actual_text(expectation.path@);
    if let Stored::Image(bytes) = stored {
        if png_pixels(bytes@) is Ok && actual_pixels is Ok {
            let golden = png_pixels(bytes@)->Ok_0;
            lemma_the_count_is_of_the_pixels_that_moved(
                golden.2,
                actual_pixels->Ok_0.2,
                common_pixels(golden.2, actual_pixels->Ok_0.2) as nat,
                tolerance_of(expectation),
            );
        }
    }
}

/// A comparison cannot be made exactly where an image that it needs cannot be
/// read: the new one's header always, the golden where it is compared with, and
/// the new one's pixels where the two have the same size.
pub proof fn lemma_when_a_comparison_cannot_be_made(
    expectation: GoldenExpectation,
    size: Result<(u32, u32), Seq<char>>,
    stored: Stored,
    actual_pixels: Result<(u32, u32, Seq<u8>), Seq<char>>,
    scale: Option<Seq<char>>,
    factor: Option<Seq<char>>,
    allowance: Allowance,
)
    ensures
        ({
            let r = compared(expectation, size, stored, actual_pixels, scale, factor, allowance);
            let golden = png_pixels(stored->Image_0@);
            let needs_pixels = stored is Image && golden is Ok && size == Ok::<
                (u32, u32),
                Seq<char>,
            >((golden->Ok_0.0, golden->Ok_0.1));
            &&& r is Err <==> size is Err || stored is Unreadable || (stored is Image && golden
                is Err) || (needs_pixels && actual_pixels is Err)
            &&& size matches Err(why) ==> text::has_suffix(r->Err_0, why)
            &&& size is Ok && stored is Unreadable ==> text::has_suffix(
                r->Err_0,
                stored->Unreadable_0@,
            )
            &&& size is Ok && stored is Image && golden is Err ==> text::has_suffix(
                r->Err_0,
                golden->Err_0,
            ) && text::has_prefix(r->Err_0, expectation.path@)
            &&& needs_pixels && actual_pixels is Err ==> text::has_suffix(
                r->Err_0,
                actual_pixels->Err_0,
            )
            &&& r matches Ok((c, _)) ==> (c.compared <==> needs_pixels)
        }),
{
    let path = expectation.path@;
    if let Err(why) = size {
        text::lemma_ends_with("the new screenshot: "@, why);
    }
    if let Stored::Unreadable(why) = stored {
        text::lemma_ends_with("Cannot read "@ + path + ": "@, why@);
    }
    if let Stored::Image(bytes) = stored {
        if let Err(why) = png_pixels(bytes@) {
            text::lemma_ends_with(path + ": "@, why);
            assert((path + ": "@ + why).subrange(0, path.len() as int) =~= path);
        }
    }
    if let Err(why) = actual_pixels {
        text::lemma_ends_with("the new screenshot: "@, why);
    }
}

/// A size mismatch says both sizes, the golden's first; the scale where there
/// is one; and the common factor where there is one.
pub proof fn lemma_a_mismatch_says_both_sizes(
    golden: (u32, u32),
    actual: (u32, u32),
    scale: Option<Seq<char>>,
    factor: Option<Seq<char>>,
    cropped: bool,
)
    ensures
        ({
            let said = mismatch_text(golden, actual, scale, factor, cropped);
            let sizes = "The golden is "@ + text::decimal_of(golden.0 as nat) + "x"@
                + text::decimal_of(golden.1 as nat) + " and this run is "@ + text::decimal_of(
                actual.0 as nat,
            ) + "x"@ + text::decimal_of(actual.1 as nat);
            &&& text::has_prefix(said, sizes)
            &&& scale matches Some(s) ==> text::has_prefix(
                said,
                sizes + (" at a device scale of "@ + s + ". "@),
            )
            &&& factor matches Some(f) ==> text::has_suffix(
                said,
                " Both sides differ by the same factor ("@ + f + SAME_FACTOR@,
            )
            &&& factor is None && cropped ==> text::has_suffix(said, ELEMENT_CHANGED@)
            &&& factor is None && !cropped ==> text::has_suffix(said, NOT_PINNED@)
        }),
{
    let said = mismatch_text(golden, actual, scale, factor, cropped);
    let sizes = "The golden is "@ + text::decimal_of(golden.0 as nat) + "x"@ + text::decimal_of(
        golden.1 as nat,
    ) + " and this run is "@ + text::decimal_of(actual.0 as nat) + "x"@ + text::decimal_of(
        actual.1 as nat,
    );
    let at_scale = match scale {
        Some(scale) => " at a device scale of "@ + scale,
        None => ""@,
    };
    let nothing = ". Nothing was compared: a different size is a different layout."@;
    let cause = match factor {
        Some(factor) => " Both sides differ by the same factor ("@ + factor + SAME_FACTOR@,
        None => if cropped {
            ELEMENT_CHANGED@
        } else {
            NOT_PINNED@
        },
    };
    assert(said =~= sizes + at_scale + nothing + cause);
    text::lemma_ends_with(sizes + at_scale + nothing, cause);
    assert(said =~= sizes + (at_scale + nothing + cause));
    text::lemma_begins_with(sizes, at_scale + nothing + cause);
    if let Some(s) = scale {
        reveal_strlit(". Nothing was compared: a different size is a different layout.");
        reveal_strlit(". ");
        let front = sizes + (" at a device scale of "@ + s + ". "@);
        assert(nothing =~= ". "@ + nothing.skip(2));
        assert(said =~= front + (nothing.skip(2) + cause));
        text::lemma_begins_with(front, nothing.skip(2) + cause);
    }
}

/// A screenshot for a comparison is asked for at full size, of the element and
/// the window that the comparison is about and of nothing else.
pub proof fn lemma_what_a_comparison_looks_at(expectation: GoldenExpectation)
    ensures
        ({
            let asked = screenshot_value(expectation);
            &&& json::field(asked, "max_width"@) == Some(JsonValue::Number(json::whole_number(0)))
            &&& json::field_text(asked, "element_id"@) == text::maybe_owned(expectation.element_id)
            &&& json::field_text(asked, "window_id"@) == text::maybe_owned(expectation.window_id)
        }),
{
    let fields = screenshot_value(expectation)->Object_0;
    reveal_strlit("max_width");
    reveal_strlit("element_id");
    reveal_strlit("window_id");
    assert("max_width"@[0] == 'm' && "element_id"@[0] == 'e' && "window_id"@[0] == 'w');
    json::lemma_field_at(fields, 0);
    if expectation.element_id is Some {
        json::lemma_field_at(fields, 1);
        if expectation.window_id is Some {
            json::lemma_field_at(fields, 2);
        } else {
            json::lemma_no_such_field(fields, "window_id"@);
        }
    } else {
        json::lemma_no_such_field(fields, "element_id"@);
        if expectation.window_id is Some {
            json::lemma_field_at(fields, 1);
        } else {
            json::lemma_no_such_field(fields, "window_id"@);
        }
    }
}

/// A switch is on exactly where it says one of four words, in any case and with
/// any white space around it.
pub proof fn lemma_what_turns_a_switch_on(before: Seq<char>, word: Seq<char>, behind: Seq<char>)
    requires
        text::all_white(before),
        text::all_white(behind),
        word.len() > 0 ==> !text::white(word[0]) && !text::white(word[word.len() - 1]),
    ensures
        on(before + word + behind) <==> {
            ||| text::lowered(word) == "1"@
            ||| text::lowered(word) == "true"@
            ||| text::lowered(word) == "yes"@
            ||| text::lowered(word) == "on"@
        },
{
    text::lemma_trimmed_is(before, word, behind);
}

/// A golden that was written says so and which it is; one that was rewritten
/// says why.
pub proof fn lemma_what_a_written_golden_says(
    expectation: GoldenExpectation,
    width: u32,
    height: u32,
)
    ensures
        written_value(expectation, width, height, true).detail matches Some(said)
            && text::has_prefix(said, "Wrote "@ + expectation.path@),
        written_value(expectation, width, height, false).detail matches Some(said)
            && text::has_prefix(
            said,
            "GPUI_MCP_UPDATE_GOLDENS is set, so "@ + expectation.path@ + " was rewritten"@,
        ),
{
    text::lemma_begins_with(
        "Wrote "@ + expectation.path@,
        " — there was nothing to compare against yet. Look at it before trusting the next run."@,
    );
    let front = "GPUI_MCP_UPDATE_GOLDENS is set, so "@ + expectation.path@;
    let end = " was rewritten rather than compared."@;
    reveal_strlit(" was rewritten rather than compared.");
    reveal_strlit(" was rewritten");
    assert(end =~= " was rewritten"@ + end.skip(14));
    assert(front + end =~= (front + " was rewritten"@) + end.skip(14));
    text::lemma_begins_with(front + " was rewritten"@, end.skip(14));
}

/// A comparison that failed says how many pixels of how many differ, by more
/// than what, what share that is and what share was allowed, and where the new
/// image was written.
pub proof fn lemma_what_a_failed_comparison_says(
    expectation: GoldenExpectation,
    size: (u32, u32),
    count: nat,
    allowance: Allowance,
)
    requires
        !allowance.within,
    ensures
        settled_value(expectation, size, count, allowance).detail matches Some(said) && {
            &&& text::has_prefix(
                said,
                text::decimal_of(count) + " of "@ + text::decimal_of((size.0 * size.1) as nat)
                    + " pixels differ by more than "@ + text::decimal_of(
                    tolerance_of(expectation) as nat,
                ) + " per channel ("@ + allowance.differing_percent@ + "% against a "@
                    + allowance.allowed_percent@ + "% allowance"@,
            )
            &&& text::mentions(
                said,
                " This run was written to "@ + actual_text(expectation.path@) + " "@,
            )
        },
{
    let actual = actual_text(expectation.path@);
    let front = text::decimal_of(count) + " of "@ + text::decimal_of((size.0 * size.1) as nat)
        + " pixels differ by more than "@ + text::decimal_of(tolerance_of(expectation) as nat)
        + " per channel ("@ + allowance.differing_percent@ + "% against a "@
        + allowance.allowed_percent@;
    lemma_failed_pieces(front, actual);
    let said = settled_value(expectation, size, count, allowance).detail->0;
    assert(said =~= front + "% allowance). This run was written to "@ + actual
        + " — open both. If the change is intended, re-run with GPUI_MCP_UPDATE_GOLDENS=1."@);
}

proof fn lemma_failed_pieces(front: Seq<char>, actual: Seq<char>)
    ensures
        ({
            let said = front + "% allowance). This run was written to "@ + actual
                + " — open both. If the change is intended, re-run with GPUI_MCP_UPDATE_GOLDENS=1."@;
            &&& text::has_prefix(said, front + "% allowance"@)
            &&& text::mentions(said, " This run was written to "@ + actual + " "@)
        }),
{
    let middle = "% allowance). This run was written to "@;
    let end = " — open both. If the change is intended, re-run with GPUI_MCP_UPDATE_GOLDENS=1."@;
    let said = front + middle + actual + end;
    reveal_strlit("% allowance). This run was written to ");
    reveal_strlit("% allowance");
    reveal_strlit(" This run was written to ");
    reveal_strlit(" ");
    reveal_strlit(
        " — open both. If the change is intended, re-run with GPUI_MCP_UPDATE_GOLDENS=1.",
    );
    assert(middle =~= "% allowance"@ + middle.skip(11));
    assert(said =~= (front + "% allowance"@) + (middle.skip(11) + actual + end));
    text::lemma_begins_with(front + "% allowance"@, middle.skip(11) + actual + end);
    assert(middle =~= middle.take(13) + " This run was written to "@);
    assert(end =~= " "@ + end.skip(1));
    let part = " This run was written to "@ + actual + " "@;
    assert(said =~= (front + middle.take(13)) + part + end.skip(1));
    text::lemma_mentions(front + middle.take(13), part, end.skip(1));
}

/// Where the two images are not the same size, what is said is of the golden's
/// size and the new image's, with the scale, the factor, and whether one
/// element was looked at.
pub proof fn lemma_what_another_size_says(
    expectation: GoldenExpectation,
    size: (u32, u32),
    stored: Stored,
    actual_pixels: Result<(u32, u32, Seq<u8>), Seq<char>>,
    scale: Option<Seq<char>>,
    factor: Option<Seq<char>>,
    allowance: Allowance,
)
    requires
        stored is Image,
        png_pixels(stored->Image_0@) is Ok,
        ({
            let (width, height, _) = png_pixels(stored->Image_0@)->Ok_0;
            size != (width, height)
        }),
    ensures
        ({
            let (width, height, _) = png_pixels(stored->Image_0@)->Ok_0;
            compared(
                expectation,
                Ok(size),
                stored,
                actual_pixels,
                scale,
                factor,
                allowance,
            ) matches Ok((c, keep)) && c.detail == Some(
                mismatch_text(
                    (width, height),
                    size,
                    scale,
                    factor,
                    expectation.element_id is Some,
                ),
            ) && !c.matched && !c.compared
        }),
{
}

/// The caller judges the golden's size against the new image's where they
/// differ, and the count of the pixels that moved against all of them where
/// they do not.
pub proof fn lemma_what_the_caller_judges<
    S: FnOnce((u32, u32), (u32, u32)) -> Option<String>,
    A: FnOnce(u64, u64) -> Allowance,
>(
    judge_sizes: S,
    judge_count: A,
    expectation: GoldenExpectation,
    size: (u32, u32),
    stored: Stored,
    actual_pixels: Result<(u32, u32, Seq<u8>), Seq<char>>,
    factor: Option<String>,
    allowance: Allowance,
)
    requires
        judgements(
            judge_sizes,
            judge_count,
            expectation,
            Ok(size),
            stored,
            actual_pixels,
            factor,
            allowance,
        ),
        stored is Image,
        png_pixels(stored->Image_0@) is Ok,
    ensures
        ({
            let (width, height, golden) = png_pixels(stored->Image_0@)->Ok_0;
            &&& size != (width, height) ==> call_ensures(
                judge_sizes,
                ((width, height), size),
                factor,
            )
            &&& size == (width, height) && actual_pixels is Ok ==> exists|count: u64, total: u64|
                {
                    &&& #[trigger] call_ensures(judge_count, (count, total), allowance)
                    &&& count == count_of(expectation, golden, actual_pixels->Ok_0.2)
                    &&& total == width * height
                }
        }),
{
}

/// An image that cannot be read is said to be the new screenshot, in the words
/// of what is wrong with it.
pub proof fn lemma_what_is_said_of_an_image(
    expectation: GoldenExpectation,
    golden: Seq<u8>,
    size: (u32, u32),
    pixels: (u32, u32, Seq<u8>),
    error: Seq<char>,
)
    ensures
        size_read(Ok(size)) == Ok::<(u32, u32), Seq<char>>(size),
        size_read(Err(error)) is Err,
        text::has_suffix(size_read(Err(error))->Err_0, ": "@ + error),
        counted(expectation, golden, Ok(pixels)) == Ok::<nat, Seq<char>>(
            count_of(expectation, golden, pixels.2),
        ),
        counted(expectation, golden, Err(error)) == Err::<nat, Seq<char>>(
            size_read(Err(error))->Err_0,
        ),
{
    let head = "the new screenshot: "@;
    reveal_strlit("the new screenshot: ");
    reveal_strlit(": ");
    assert(head =~= head.take(18) + ": "@);
    assert(head + error =~= head.take(18) + (": "@ + error));
    text::lemma_ends_with(head.take(18), ": "@ + error);
}

} // verus!
