use img::gallery::{format_for_extension, is_supported_extension, media_format, Gallery, MediaFormat};
use img::info::{aspect_ratio_str, format_duration, gcd, truncate_filename};

fn listing() -> Vec<String> {
    ["/p/b.PNG", "/p/a.jpg", "/p/notes.txt", "/p/c.webp", "/p/.hidden", "/p/noext", "/p/d.JpEg"]
        .iter()
        .map(|s| s.to_string())
        .collect()
}

#[test]
fn listing_keeps_supported_sorted() {
    let g = Gallery::from_listing(&"/p/c.webp".to_string(), listing());
    assert_eq!(g.len(), 4);
    assert_eq!(g.position(), 2);
    assert_eq!(g.current().map(|s| s.as_str()), Some("/p/c.webp"));
}

#[test]
fn unknown_file_starts_at_first() {
    let g = Gallery::from_listing(&"/p/zzz.png".to_string(), listing());
    assert_eq!(g.position(), 0);
    assert_eq!(g.current().map(|s| s.as_str()), Some("/p/a.jpg"));
}

#[test]
fn next_and_previous_wrap() {
    let mut g = Gallery::from_listing(&"/p/a.jpg".to_string(), listing());
    assert_eq!(g.previous().map(|s| s.as_str()), Some("/p/d.JpEg"));
    assert_eq!(g.next().map(|s| s.as_str()), Some("/p/a.jpg"));
    assert_eq!(g.next().map(|s| s.as_str()), Some("/p/b.PNG"));
    assert_eq!(g.next().map(|s| s.as_str()), Some("/p/c.webp"));
    assert_eq!(g.next().map(|s| s.as_str()), Some("/p/d.JpEg"));
    assert_eq!(g.next().map(|s| s.as_str()), Some("/p/a.jpg"));
}

#[test]
fn set_moves_only_within_gallery() {
    let mut g = Gallery::from_listing(&"/p/a.jpg".to_string(), listing());
    assert_eq!(g.set(&"/p/c.webp".to_string()).map(|s| s.as_str()), Some("/p/c.webp"));
    assert_eq!(g.position(), 2);
    assert_eq!(g.set(&"/q/other.png".to_string()), None);
    assert_eq!(g.position(), 2);
}

#[test]
fn empty_gallery() {
    let mut g = Gallery::default();
    assert_eq!(g.len(), 0);
    assert_eq!(g.current(), None);
    assert_eq!(g.next(), None);
    assert_eq!(g.previous(), None);
    assert_eq!(g.position(), 0);
}

#[test]
fn filename_is_last_component() {
    assert_eq!(Gallery::filename("/a/b/photo.png"), "photo.png");
    assert_eq!(Gallery::filename("photo"), "photo");
    assert_eq!(Gallery::filename("/"), "");
    assert_eq!(Gallery::filename("/a/.."), "");
}

#[test]
fn extensions_match_ignoring_case() {
    assert!(is_supported_extension("png"));
    assert!(is_supported_extension("KTX2"));
    assert!(is_supported_extension("DiCoM"));
    assert!(!is_supported_extension("txt"));
    assert!(!is_supported_extension(""));
    assert!(!is_supported_extension("pngg"));
}

#[test]
fn gcd_and_aspect_ratio() {
    assert_eq!(gcd(1920, 1080), 120);
    assert_eq!(gcd(7, 0), 7);
    assert_eq!(gcd(0, 7), 7);
    assert_eq!(aspect_ratio_str(1920, 1080), "16:9");
    assert_eq!(aspect_ratio_str(512, 512), "1:1");
    assert_eq!(aspect_ratio_str(0, 5), "0:1");
    assert_eq!(aspect_ratio_str(9000, 4000), "9:4");
}

#[test]
fn durations_in_seconds() {
    assert_eq!(format_duration(3000), "3s");
    assert_eq!(format_duration(0), "0s");
    assert_eq!(format_duration(3050), "3.050s");
    assert_eq!(format_duration(100), "0.100s");
    assert_eq!(format_duration(61_007), "61.007s");
}

#[test]
fn filenames_are_shortened_before_the_extension() {
    assert_eq!(truncate_filename("short.png", 20), "short.png");
    assert_eq!(truncate_filename("a_very_long_name.jpeg", 12), "a_very~.jpeg");
    assert_eq!(truncate_filename("noextension_at_all", 10), "noextensi~");
    assert_eq!(truncate_filename("x.verylongext", 5), "x.ver");
    assert_eq!(truncate_filename("ab.cd", 5), "ab.cd");
    assert_eq!(truncate_filename("héllo_wörld.png", 10), "héllo~.png");
}

#[test]
fn decoder_follows_extension() {
    assert_eq!(media_format("/x/anim.GIF"), MediaFormat::Gif);
    assert_eq!(media_format("/x/a.svgz"), MediaFormat::Svg);
    assert_eq!(media_format("/x/a.J2K"), MediaFormat::Jp2);
    assert_eq!(media_format("/x/a.dicom"), MediaFormat::Dicom);
    assert_eq!(media_format("/x/a.webp"), MediaFormat::WebP);
    assert_eq!(media_format("/x/a.avif"), MediaFormat::Generic);
    assert_eq!(media_format("/x/a.png"), MediaFormat::Generic);
    assert_eq!(media_format("/x/noext"), MediaFormat::Generic);
    assert_eq!(media_format("/x/a.ktx2"), MediaFormat::Ktx2);
}

#[test]
fn decoder_by_extension_alone() {
    assert_eq!(format_for_extension("Hdr"), MediaFormat::Hdr);
    assert_eq!(format_for_extension("EXR"), MediaFormat::Exr);
    assert_eq!(format_for_extension("apng"), MediaFormat::Apng);
    assert_eq!(format_for_extension("kra"), MediaFormat::Kra);
    assert_eq!(format_for_extension("jpg"), MediaFormat::Generic);
    assert_eq!(format_for_extension(""), MediaFormat::Generic);
}
