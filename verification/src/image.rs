//! The encoding of vector images lifted out of a page.
//!
//! Each image is left inline, kept as a standalone vector file, or rasterised
//! to a compressed still image, by the configured policy and its size.

use vstd::prelude::*;
use crate::config::ExtractSvgType;
use crate::markup::{
    attr_views, escape_attribute_value, escaped_attribute, render_start, start_markup, Attr,
};
use crate::rewrite::{piece_views, Piece, PieceModel};
use vstd::slice::slice_to_vec;
use crate::text::string_of;
use vstd::string::*;
use crate::text::arg_views;

verus! {

/// The encoder that rasterises an image.
#[derive(Debug, Clone, Copy, PartialEq, Eq, Structural)]
pub enum RasterBackend {
    /// The built-in encoder.
    Builtin,
    /// ImageMagick.
    Magick,
    /// FFmpeg.
    Ffmpeg,
}

/// What becomes of one image.
#[derive(Debug, Clone, Copy, PartialEq, Eq, Structural)]
pub enum ImageOutcome {
    /// It stays in the page.
    Inline,
    /// It is kept as a standalone vector file.
    Vector,
    /// It is rasterised by the given encoder.
    Raster(RasterBackend),
}

/// The outcome for an image of `len` bytes: inline or vector where the policy
/// says so; otherwise vector below the threshold and raster from it on.
pub open spec fn decided(policy: ExtractSvgType, len: nat, threshold: nat) -> ImageOutcome {
    match policy {
        ExtractSvgType::Embedded => ImageOutcome::Inline,
        ExtractSvgType::JustSvg => ImageOutcome::Vector,
        ExtractSvgType::Builtin => if len < threshold {
            ImageOutcome::Vector
        } else {
            ImageOutcome::Raster(RasterBackend::Builtin)
        },
        ExtractSvgType::Magick => if len < threshold {
            ImageOutcome::Vector
        } else {
            ImageOutcome::Raster(RasterBackend::Magick)
        },
        ExtractSvgType::Ffmpeg => if len < threshold {
            ImageOutcome::Vector
        } else {
            ImageOutcome::Raster(RasterBackend::Ffmpeg)
        },
    }
}

/// Decides what becomes of an image of `len` bytes.
pub fn decide(policy: ExtractSvgType, len: usize, threshold: usize) -> (outcome: ImageOutcome)
    ensures
        outcome == decided(policy, len as nat, threshold as nat),
{
    match policy {
        ExtractSvgType::Embedded => ImageOutcome::Inline,
        ExtractSvgType::JustSvg => ImageOutcome::Vector,
        ExtractSvgType::Builtin => if len < threshold {
            ImageOutcome::Vector
        } else {
            ImageOutcome::Raster(RasterBackend::Builtin)
        },
        ExtractSvgType::Magick => if len < threshold {
            ImageOutcome::Vector
        } else {
            ImageOutcome::Raster(RasterBackend::Magick)
        },
        ExtractSvgType::Ffmpeg => if len < threshold {
            ImageOutcome::Vector
        } else {
            ImageOutcome::Raster(RasterBackend::Ffmpeg)
        },
    }
}

/// Under a policy that may rasterise, the threshold is the first size that
/// is rasterised: one byte less is kept as a vector file, the threshold
/// itself and every larger size are not. The two other policies never
/// rasterise.
pub proof fn lemma_threshold_is_first_raster_size(policy: ExtractSvgType, len: nat, threshold: nat)
    ensures
        policy == ExtractSvgType::Embedded ==> decided(policy, len, threshold)
            == ImageOutcome::Inline,
        policy == ExtractSvgType::JustSvg ==> decided(policy, len, threshold)
            == ImageOutcome::Vector,
        policy != ExtractSvgType::Embedded && policy != ExtractSvgType::JustSvg ==> (decided(
            policy,
            len,
            threshold,
        ) is Raster <==> len >= threshold),
        policy != ExtractSvgType::Embedded && policy != ExtractSvgType::JustSvg ==> (decided(
            policy,
            len,
            threshold,
        ) == ImageOutcome::Vector <==> len < threshold),
{
}

/// Under the two policies that never rasterise, an image whose size is
/// exactly the threshold is not rasterised.
pub proof fn lemma_size_at_threshold_is_not_rasterised(policy: ExtractSvgType, threshold: nat)
    requires
        policy == ExtractSvgType::JustSvg || policy == ExtractSvgType::Embedded,
    ensures
        !(decided(policy, threshold, threshold) is Raster),
{
}

/// The character of a decimal digit.
pub open spec fn digit_char(d: nat) -> char {
    if d == 0 {
        '0'
    } else if d == 1 {
        '1'
    } else if d == 2 {
        '2'
    } else if d == 3 {
        '3'
    } else if d == 4 {
        '4'
    } else if d == 5 {
        '5'
    } else if d == 6 {
        '6'
    } else if d == 7 {
        '7'
    } else if d == 8 {
        '8'
    } else {
        '9'
    }
}

/// The decimal digits of `n`, most significant first, without leading zeros.
pub open spec fn decimal(n: nat) -> Seq<char>
    decreases n,
{
    if n < 10 {
        seq![digit_char(n)]
    } else {
        decimal(n / 10).push(digit_char(n % 10))
    }
}

/// The character of a decimal digit.
fn digit(d: u64) -> (c: char)
    requires
        d < 10,
    ensures
        c == digit_char(d as nat),
{
    if d == 0 {
        '0'
    } else if d == 1 {
        '1'
    } else if d == 2 {
        '2'
    } else if d == 3 {
        '3'
    } else if d == 4 {
        '4'
    } else if d == 5 {
        '5'
    } else if d == 6 {
        '6'
    } else if d == 7 {
        '7'
    } else if d == 8 {
        '8'
    } else {
        '9'
    }
}

/// The decimal digits of `n`.
pub fn decimal_chars(n: u64) -> (out: Vec<char>)
    ensures
        out@ == decimal(n as nat),
    decreases n,
{
    if n < 10 {
        let mut out: Vec<char> = Vec::new();
        out.push(digit(n));
        assert(out@ =~= seq![digit_char(n as nat)]);
        out
    } else {
        let mut out = decimal_chars(n / 10);
        out.push(digit(n % 10));
        out
    }
}

/// The file extension of an extracted image.
pub open spec fn extension(outcome: ImageOutcome) -> Seq<char> {
    if outcome is Raster {
        "avif"@
    } else {
        "svg"@
    }
}

/// The file name of the image with the given ordinal: `svg-`, the ordinal,
/// a dot and the extension.
pub open spec fn file_name(ordinal: nat, outcome: ImageOutcome) -> Seq<char> {
    "svg-"@ + decimal(ordinal) + seq!['.'] + extension(outcome)
}

/// The file name of the image with the given ordinal.
pub fn image_file_name(ordinal: usize, outcome: ImageOutcome) -> (name: String)
    ensures
        name@ == file_name(ordinal as nat, outcome),
{
    let mut name = "svg-".to_owned();
    let digits = string_of(&decimal_chars(ordinal as u64));
    name.append(digits.as_str());
    name.append(".");
    proof {
        reveal_strlit(".");
        assert("."@ =~= seq!['.']);
    }
    match outcome {
        ImageOutcome::Raster(_) => name.append("avif"),
        _ => name.append("svg"),
    }
    name
}

/// What the placing of images depends on.
#[derive(Debug, Clone)]
pub struct ImageSettings {
    /// The configured policy.
    pub policy: ExtractSvgType,
    /// Size in bytes from which an image is rasterised.
    pub threshold: usize,
    /// URL of the directory the page is published in, without a trailing `/`.
    pub page_url: String,
}

/// A lifted image after measuring: the bytes to store and the size it is
/// displayed at, in pixels, as text.
#[derive(Debug, Clone, PartialEq, Eq)]
pub struct Measured {
    /// The vector image as it is stored or rasterised.
    pub data: Vec<u8>,
    /// Displayed width in pixels.
    pub width: String,
    /// Displayed height in pixels.
    pub height: String,
}

/// An image that leaves its page.
#[derive(Debug, Clone, PartialEq, Eq)]
pub struct ExtractedImage {
    /// Zero-based index of the image among those of its page.
    pub ordinal: usize,
    /// The vector image.
    pub data: Vec<u8>,
    /// The chosen encoding.
    pub outcome: ImageOutcome,
    /// Name of the file it is written to, beside the page.
    pub file_name: String,
}

impl View for ExtractedImage {
    type V = (nat, Seq<u8>, ImageOutcome, Seq<char>);

    open spec fn view(&self) -> (nat, Seq<u8>, ImageOutcome, Seq<char>) {
        (self.ordinal as nat, self.data@, self.outcome, self.file_name@)
    }
}

/// The images in `images`, as mathematical values.
pub open spec fn image_views(images: Seq<ExtractedImage>) -> Seq<
    (nat, Seq<u8>, ImageOutcome, Seq<char>),
> {
    images.map_values(|i: ExtractedImage| i@)
}

/// The number of image places among the pieces.
pub open spec fn image_count(pieces: Seq<PieceModel>) -> nat
    decreases pieces.len(),
{
    if pieces.len() == 0 {
        0
    } else {
        image_count(pieces.drop_last()) + if pieces.last() is Image {
            1nat
        } else {
            0nat
        }
    }
}

/// The outcome for a measured image.
pub open spec fn outcome_of(m: Measured, settings: ImageSettings) -> ImageOutcome {
    decided(settings.policy, m.data@.len(), settings.threshold as nat)
}

/// The element that displays an extracted image: its source is the file
/// beside the page, its style the displayed size.
pub open spec fn img_markup(ordinal: nat, m: Measured, settings: ImageSettings) -> Seq<char> {
    start_markup(
        "img"@,
        seq![
            (
                "src"@,
                escaped_attribute(
                    settings.page_url@ + seq!['/'] + file_name(ordinal, outcome_of(m, settings)),
                ),
            ),
            (
                "style"@,
                escaped_attribute("width:"@ + m.width@ + "px;height:"@ + m.height@ + "px;"@),
            ),
        ],
    )
}

/// What is written at the place of an image: the image itself where it stays
/// inline, else the element that displays its file.
pub open spec fn image_text(
    attrs: Seq<(Seq<char>, Seq<char>)>,
    inner: Seq<char>,
    ordinal: nat,
    m: Measured,
    settings: ImageSettings,
) -> Seq<char> {
    if outcome_of(m, settings) is Inline {
        start_markup("svg"@, attrs) + inner
    } else {
        img_markup(ordinal, m, settings)
    }
}

/// The text of a page: markup as it is, and each image place filled.
pub open spec fn page_text(
    pieces: Seq<PieceModel>,
    measured: Seq<Measured>,
    settings: ImageSettings,
) -> Seq<char>
    decreases pieces.len(),
{
    if pieces.len() == 0 {
        Seq::<char>::empty()
    } else {
        let before = page_text(pieces.drop_last(), measured, settings);
        let ordinal = image_count(pieces.drop_last());
        match pieces.last() {
            PieceModel::Markup(text) => before + text,
            PieceModel::Image { attrs, inner } => before + image_text(
                attrs,
                inner,
                ordinal,
                measured[ordinal as int],
                settings,
            ),
        }
    }
}

/// The images that leave the page, in page order: every image that does not
/// stay inline, under its ordinal and file name.
pub open spec fn extracted(
    pieces: Seq<PieceModel>,
    measured: Seq<Measured>,
    settings: ImageSettings,
) -> Seq<(nat, Seq<u8>, ImageOutcome, Seq<char>)>
    decreases pieces.len(),
{
    if pieces.len() == 0 {
        Seq::<(nat, Seq<u8>, ImageOutcome, Seq<char>)>::empty()
    } else {
        let before = extracted(pieces.drop_last(), measured, settings);
        let ordinal = image_count(pieces.drop_last());
        let m = measured[ordinal as int];
        if pieces.last() is Image && !(outcome_of(m, settings) is Inline) {
            before.push(
                (ordinal, m.data@, outcome_of(m, settings), file_name(
                    ordinal,
                    outcome_of(m, settings),
                )),
            )
        } else {
            before
        }
    }
}

/// Every image that leaves a page is named by its ordinal and its
/// encoding, as the element in the page names it; ordinals count the image
/// places of the page, and no two images share one.
pub proof fn lemma_extracted_images_are_named_by_ordinal(
    pieces: Seq<PieceModel>,
    measured: Seq<Measured>,
    settings: ImageSettings,
)
    ensures
        forall|i: int|
            0 <= i < extracted(pieces, measured, settings).len() ==> {
                let image = #[trigger] extracted(pieces, measured, settings)[i];
                &&& image.3 == file_name(image.0, image.2)
                &&& image.0 < image_count(pieces)
                &&& image.2 == outcome_of(measured[image.0 as int], settings)
                &&& !(image.2 is Inline)
            },
        forall|i: int, j: int|
            0 <= i < j < extracted(pieces, measured, settings).len() ==> (#[trigger] extracted(
                pieces,
                measured,
                settings,
            )[i]).0 < (#[trigger] extracted(pieces, measured, settings)[j]).0,
    decreases pieces.len(),
{
    if pieces.len() > 0 {
        lemma_extracted_images_are_named_by_ordinal(pieces.drop_last(), measured, settings);
        let before = extracted(pieces.drop_last(), measured, settings);
        let all = extracted(pieces, measured, settings);
        assert forall|i: int| 0 <= i < all.len() implies {
            let image = #[trigger] all[i];
            &&& image.3 == file_name(image.0, image.2)
            &&& image.0 < image_count(pieces)
            &&& image.2 == outcome_of(measured[image.0 as int], settings)
            &&& !(image.2 is Inline)
        } by {
            if i < before.len() {
                assert(all[i] == before[i]);
            }
        }
        assert forall|i: int, j: int| 0 <= i < j < all.len() implies (#[trigger] all[i]).0 < (
        #[trigger] all[j]).0 by {
            if j < before.len() {
                assert(all[i] == before[i] && all[j] == before[j]);
            } else {
                assert(all[i] == before[i]);
            }
        }
    }
}

/// The number of image places among the pieces.
pub fn count_images(pieces: &Vec<Piece>) -> (n: usize)
    ensures
        n == image_count(piece_views(pieces@)),
{
    let ghost all = piece_views(pieces@);
    let mut n: usize = 0;
    let mut i: usize = 0;
    assert(all.subrange(0, 0) =~= Seq::<PieceModel>::empty());
    while i < pieces.len()
        invariant
            i <= pieces.len(),
            all == piece_views(pieces@),
            n == image_count(all.subrange(0, i as int)),
            n <= i,
        decreases pieces.len() - i,
    {
        proof {
            assert(all.subrange(0, i + 1).drop_last() =~= all.subrange(0, i as int));
            assert(all.subrange(0, i + 1).last() == pieces@[i as int]@);
        }
        match &pieces[i] {
            Piece::Image(_) => {
                n = n + 1;
            },
            Piece::Markup(_) => {},
        }
        i = i + 1;
    }
    assert(all.subrange(0, pieces.len() as int) =~= all);
    n
}

/// The element that displays an extracted image.
fn img_text(ordinal: usize, m: &Measured, settings: &ImageSettings) -> (out: String)
    ensures
        out@ == img_markup(ordinal as nat, *m, *settings),
{
    let outcome = decide(settings.policy, m.data.len(), settings.threshold);
    let mut src = settings.page_url.clone();
    src.append("/");
    proof {
        reveal_strlit("/");
        assert("/"@ =~= seq!['/']);
    }
    src.append(image_file_name(ordinal, outcome).as_str());
    let mut style = "width:".to_owned();
    style.append(m.width.as_str());
    style.append("px;height:");
    style.append(m.height.as_str());
    style.append("px;");
    let mut attrs: Vec<Attr> = Vec::new();
    attrs.push(Attr { key: "src".to_owned(), value: escape_attribute_value(src.as_str()) });
    attrs.push(Attr { key: "style".to_owned(), value: escape_attribute_value(style.as_str()) });
    assert(attr_views(attrs@) =~= seq![
        ("src"@, escaped_attribute(src@)),
        ("style"@, escaped_attribute(style@)),
    ]);
    render_start("img", &attrs)
}

/// Fills the image places of a rewritten page and lists the images that
/// leave it.
///
/// Yields nothing where the number of measured images differs from the
/// number of image places.
pub fn assemble(pieces: &Vec<Piece>, measured: &Vec<Measured>, settings: &ImageSettings) -> (r:
    Option<(String, Vec<ExtractedImage>)>)
    ensures
        r is Some <==> measured@.len() == image_count(piece_views(pieces@)),
        r matches Some(page) ==> {
            &&& page.0@ == page_text(piece_views(pieces@), measured@, *settings)
            &&& image_views(page.1@) == extracted(piece_views(pieces@), measured@, *settings)
        },
{
    if count_images(pieces) != measured.len() {
        return None;
    }
    let ghost all = piece_views(pieces@);
    let mut html = String::new();
    let mut images: Vec<ExtractedImage> = Vec::new();
    let mut ordinal: usize = 0;
    let mut i: usize = 0;
    assert(all.subrange(0, 0) =~= Seq::<PieceModel>::empty());
    assert(image_views(images@) =~= extracted(all.subrange(0, 0), measured@, *settings));
    while i < pieces.len()
        invariant
            i <= pieces.len(),
            all == piece_views(pieces@),
            measured@.len() == image_count(all),
            ordinal == image_count(all.subrange(0, i as int)),
            ordinal <= i,
            html@ == page_text(all.subrange(0, i as int), measured@, *settings),
            image_views(images@) == extracted(all.subrange(0, i as int), measured@, *settings),
        decreases pieces.len() - i,
    {
        proof {
            assert(all.subrange(0, i + 1).drop_last() =~= all.subrange(0, i as int));
            assert(all.subrange(0, i + 1).last() == pieces@[i as int]@);
            lemma_image_count_prefix(all, i + 1);
        }
        match &pieces[i] {
            Piece::Markup(text) => {
                html.append(text.as_str());
            },
            Piece::Image(svg) => {
                let m = &measured[ordinal];
                let outcome = decide(settings.policy, m.data.len(), settings.threshold);
                match outcome {
                    ImageOutcome::Inline => {
                        html.append(render_start("svg", &svg.attrs).as_str());
                        html.append(svg.inner.as_str());
                    },
                    _ => {
                        html.append(img_text(ordinal, m, settings).as_str());
                        let ghost before = image_views(images@);
                        let image = ExtractedImage {
                            ordinal,
                            data: slice_to_vec(m.data.as_slice()),
                            outcome,
                            file_name: image_file_name(ordinal, outcome),
                        };
                        images.push(image);
                        assert(image_views(images@) =~= before.push(image@));
                    },
                }
                ordinal = ordinal + 1;
            },
        }
        i = i + 1;
    }
    assert(all.subrange(0, pieces.len() as int) =~= all);
    Some((html, images))
}

/// A prefix of the pieces holds no more image places than all of them.
pub proof fn lemma_image_count_prefix(pieces: Seq<PieceModel>, n: int)
    requires
        0 <= n <= pieces.len(),
    ensures
        image_count(pieces.subrange(0, n)) <= image_count(pieces),
    decreases pieces.len() - n,
{
    if n == pieces.len() {
        assert(pieces.subrange(0, n) =~= pieces);
    } else {
        lemma_image_count_prefix(pieces, n + 1);
        assert(pieces.subrange(0, n + 1).drop_last() =~= pieces.subrange(0, n));
    }
}

/// Points added above a vector image before it is measured, to make room
/// for what the compiler draws outside its box.
pub const PADDING_TOP: u32 = 5;

/// Points added below a vector image before it is measured.
pub const PADDING_BOTTOM: u32 = 4;

/// Quality the built-in encoder is run at, out of 100.
pub const BUILTIN_QUALITY: u8 = 90;

/// Speed the built-in encoder is run at, from 1, the slowest, to 10.
pub const BUILTIN_SPEED: u8 = 4;

/// The command line of an external raster tool. The tool reads the vector
/// image from its standard input and writes the file itself.
pub open spec fn raster_args(backend: RasterBackend, density: Seq<char>, output: Seq<char>) -> Seq<
    Seq<char>,
> {
    match backend {
        RasterBackend::Builtin => Seq::<Seq<char>>::empty(),
        RasterBackend::Magick => seq![
            "magick"@,
            "-background"@,
            "none"@,
            "-density"@,
            density,
            "-"@,
            output,
        ],
        RasterBackend::Ffmpeg => seq![
            "ffmpeg"@,
            "-f"@,
            "svg_pipe"@,
            "-frame_size"@,
            "1000000000"@,
            "-i"@,
            "pipe:"@,
            "-filter_complex"@,
            "[0:v]split[color][alpha];[alpha]alphaextract[alpha];[color]format=yuv420p[color]"@,
            "-map"@,
            "[color]"@,
            "-c:v:0"@,
            "libsvtav1"@,
            "-pix_fmt"@,
            "yuv420p"@,
            "-svtav1-params"@,
            "preset=4:still-picture=1"@,
            "-map"@,
            "[alpha]"@,
            "-c:v:1"@,
            "libaom-av1"@,
            "-pix_fmt"@,
            "gray"@,
            "-still-picture"@,
            "1"@,
            "-strict"@,
            "experimental"@,
            "-c:v"@,
            "libaom-av1"@,
            "-y"@,
            output,
        ],
    }
}

/// The command line that rasterises an image to `output` with an external
/// tool, at the given density in dots per inch; empty for the built-in
/// encoder, which runs no command.
pub fn raster_command(backend: RasterBackend, density: &str, output: &str) -> (args: Vec<String>)
    ensures
        arg_views(args@) == raster_args(backend, density@, output@),
{
    let mut args: Vec<String> = Vec::new();
    match backend {
        RasterBackend::Builtin => {
            assert(arg_views(args@) =~= raster_args(backend, density@, output@));
        },
        RasterBackend::Magick => {
            args.push("magick".to_owned());
            args.push("-background".to_owned());
            args.push("none".to_owned());
            args.push("-density".to_owned());
            args.push(density.to_owned());
            args.push("-".to_owned());
            args.push(output.to_owned());
            assert(arg_views(args@) =~= raster_args(backend, density@, output@));
        },
        RasterBackend::Ffmpeg => {
            args.push("ffmpeg".to_owned());
            args.push("-f".to_owned());
            args.push("svg_pipe".to_owned());
            args.push("-frame_size".to_owned());
            args.push("1000000000".to_owned());
            args.push("-i".to_owned());
            args.push("pipe:".to_owned());
            args.push("-filter_complex".to_owned());
            args.push(
                "[0:v]split[color][alpha];[alpha]alphaextract[alpha];[color]format=yuv420p[color]".to_owned(),
            );
            args.push("-map".to_owned());
            args.push("[color]".to_owned());
            args.push("-c:v:0".to_owned());
            args.push("libsvtav1".to_owned());
            args.push("-pix_fmt".to_owned());
            args.push("yuv420p".to_owned());
            args.push("-svtav1-params".to_owned());
            args.push("preset=4:still-picture=1".to_owned());
            args.push("-map".to_owned());
            args.push("[alpha]".to_owned());
            args.push("-c:v:1".to_owned());
            args.push("libaom-av1".to_owned());
            args.push("-pix_fmt".to_owned());
            args.push("gray".to_owned());
            args.push("-still-picture".to_owned());
            args.push("1".to_owned());
            args.push("-strict".to_owned());
            args.push("experimental".to_owned());
            args.push("-c:v".to_owned());
            args.push("libaom-av1".to_owned());
            args.push("-y".to_owned());
            args.push(output.to_owned());
            assert(arg_views(args@) =~= raster_args(backend, density@, output@));
        },
    }
    args
}

} // verus!
