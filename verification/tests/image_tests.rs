use tola::config::{ExtractSvgType, SiteConfig};
use tola::image::{
    assemble, count_images, decide, decimal_chars, image_file_name, raster_command, ExtractedImage,
    ImageOutcome, ImageSettings, Measured, RasterBackend,
};
use tola::markup::Attr;
use tola::rewrite::{Piece, RawSvg};
use tola::size::parse_size;

fn measured(len: usize) -> Measured {
    Measured { data: vec![b'x'; len], width: "10.5".to_string(), height: "4".to_string() }
}

fn svg() -> Piece {
    Piece::Image(RawSvg {
        attrs: vec![Attr { key: "width".to_string(), value: "10pt".to_string() }],
        inner: "<g/></svg>".to_string(),
    })
}

fn settings(policy: ExtractSvgType) -> ImageSettings {
    ImageSettings { policy, threshold: 20480, page_url: "/blog/posts/a".to_string() }
}

#[test]
fn inline_max_size_of_20kb_is_20480_bytes() {
    let config = SiteConfig::default();
    assert_eq!(config.build.typst.svg.inline_max_size, "20KB");
    let threshold = config.get_inline_max_size();
    assert_eq!(threshold, 20480);
    assert_eq!(decide(ExtractSvgType::Builtin, 19000, threshold), ImageOutcome::Vector);
    assert_eq!(
        decide(ExtractSvgType::Builtin, 25000, threshold),
        ImageOutcome::Raster(RasterBackend::Builtin)
    );
    assert_eq!(image_file_name(0, decide(ExtractSvgType::Builtin, 19000, threshold)), "svg-0.svg");
    assert_eq!(image_file_name(0, decide(ExtractSvgType::Builtin, 25000, threshold)), "svg-0.avif");
}

#[test]
fn threshold_is_the_first_size_that_is_rasterised() {
    for policy in [ExtractSvgType::Builtin, ExtractSvgType::Magick, ExtractSvgType::Ffmpeg] {
        assert_eq!(decide(policy, 20479, 20480), ImageOutcome::Vector);
        assert!(matches!(decide(policy, 20480, 20480), ImageOutcome::Raster(_)));
        assert!(matches!(decide(policy, 20481, 20480), ImageOutcome::Raster(_)));
        assert!(matches!(decide(policy, 0, 0), ImageOutcome::Raster(_)));
    }
    assert_eq!(decide(ExtractSvgType::Magick, 30000, 20480), ImageOutcome::Raster(RasterBackend::Magick));
    assert_eq!(decide(ExtractSvgType::Ffmpeg, 30000, 20480), ImageOutcome::Raster(RasterBackend::Ffmpeg));
    assert_eq!(decide(ExtractSvgType::JustSvg, 20480, 20480), ImageOutcome::Vector);
    assert_eq!(decide(ExtractSvgType::JustSvg, usize::MAX, 0), ImageOutcome::Vector);
    assert_eq!(decide(ExtractSvgType::Embedded, 20480, 20480), ImageOutcome::Inline);
}

#[test]
fn sizes_are_a_number_and_a_unit() {
    assert_eq!(parse_size("20KB"), 20480);
    assert_eq!(parse_size("1MB"), 1048576);
    assert_eq!(parse_size("512B"), 512);
    assert_eq!(parse_size("512"), 512);
    assert_eq!(parse_size("+3KB"), 3072);
    assert_eq!(parse_size("0KB"), 0);
    assert_eq!(parse_size("KB"), 0);
    assert_eq!(parse_size(""), 0);
    assert_eq!(parse_size("20kb"), 0);
    assert_eq!(parse_size("2 0KB"), 0);
    assert_eq!(parse_size("-1KB"), 0);
    assert_eq!(parse_size("1.5MB"), 0);
    assert_eq!(parse_size("7GB"), 7);
    assert_eq!(parse_size("99999999999999999999999999KB"), 0);
    assert_eq!(parse_size("18446744073709551615MB"), usize::MAX);
    assert_eq!(parse_size("18446744073709551615"), usize::MAX);
}

#[test]
fn file_names_carry_the_ordinal() {
    assert_eq!(image_file_name(0, ImageOutcome::Vector), "svg-0.svg");
    assert_eq!(image_file_name(12, ImageOutcome::Raster(RasterBackend::Magick)), "svg-12.avif");
    assert_eq!(image_file_name(100, ImageOutcome::Inline), "svg-100.svg");
    let digits: String = decimal_chars(9076543210).iter().collect();
    assert_eq!(digits, "9076543210");
}

#[test]
fn image_places_are_filled_and_images_listed() {
    let pieces = vec![
        Piece::Markup("<p>".to_string()),
        svg(),
        Piece::Markup("</p>".to_string()),
        svg(),
    ];
    assert_eq!(count_images(&pieces), 2);
    let sizes = vec![measured(19000), measured(25000)];
    let (html, images) = assemble(&pieces, &sizes, &settings(ExtractSvgType::Builtin)).unwrap();
    assert_eq!(
        html,
        "<p><img src=\"/blog/posts/a/svg-0.svg\" style=\"width:10.5px;height:4px;\"></p>\
<img src=\"/blog/posts/a/svg-1.avif\" style=\"width:10.5px;height:4px;\">"
    );
    assert_eq!(
        images,
        vec![
            ExtractedImage {
                ordinal: 0,
                data: vec![b'x'; 19000],
                outcome: ImageOutcome::Vector,
                file_name: "svg-0.svg".to_string(),
            },
            ExtractedImage {
                ordinal: 1,
                data: vec![b'x'; 25000],
                outcome: ImageOutcome::Raster(RasterBackend::Builtin),
                file_name: "svg-1.avif".to_string(),
            },
        ]
    );
}

#[test]
fn every_image_is_named_as_its_img_says() {
    let pieces = vec![svg(), svg(), svg()];
    let sizes = vec![measured(1), measured(30000), measured(2)];
    let (html, images) = assemble(&pieces, &sizes, &settings(ExtractSvgType::Ffmpeg)).unwrap();
    for image in &images {
        let src = format!("src=\"/blog/posts/a/{}\"", image.file_name);
        assert_eq!(html.matches(&src).count(), 1);
    }
    assert_eq!(images.len(), 3);
}

#[test]
fn images_stay_in_the_page_under_the_inline_policy() {
    let pieces = vec![Piece::Markup("a".to_string()), svg()];
    let (html, images) =
        assemble(&pieces, &vec![measured(30000)], &settings(ExtractSvgType::Embedded)).unwrap();
    assert_eq!(html, "a<svg width=\"10pt\"><g/></svg>");
    assert!(images.is_empty());
}

#[test]
fn measured_images_must_match_the_image_places() {
    let pieces = vec![svg()];
    assert_eq!(assemble(&pieces, &vec![], &settings(ExtractSvgType::JustSvg)), None);
    assert_eq!(
        assemble(&pieces, &vec![measured(1), measured(2)], &settings(ExtractSvgType::JustSvg)),
        None
    );
    let (html, images) = assemble(&vec![], &vec![], &settings(ExtractSvgType::JustSvg)).unwrap();
    assert_eq!(html, "");
    assert!(images.is_empty());
}

#[test]
fn raster_tools_get_their_fixed_arguments() {
    assert_eq!(
        raster_command(RasterBackend::Magick, "96", "out/svg-0.avif"),
        vec!["magick", "-background", "none", "-density", "96", "-", "out/svg-0.avif"]
    );
    let ffmpeg = raster_command(RasterBackend::Ffmpeg, "96", "out/svg-0.avif");
    assert_eq!(ffmpeg.len(), 31);
    assert_eq!(ffmpeg[0], "ffmpeg");
    assert_eq!(&ffmpeg[1..7], ["-f", "svg_pipe", "-frame_size", "1000000000", "-i", "pipe:"]);
    assert_eq!(
        ffmpeg[8],
        "[0:v]split[color][alpha];[alpha]alphaextract[alpha];[color]format=yuv420p[color]"
    );
    assert_eq!(&ffmpeg[29..], ["-y", "out/svg-0.avif"]);
    assert!(raster_command(RasterBackend::Builtin, "96", "x").is_empty());
}
