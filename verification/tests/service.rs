use mvtool::service::{bit_depth, icon_from_decoded, is_match, is_newer_version, load_icon, qrcode, try_qrcode, version};

fn masks(list: &[&str]) -> Vec<String> {
    list.iter().map(|s| s.to_string()).collect()
}

#[test]
fn version_is_the_package_version() {
    assert_eq!(version(), "0.1.0");
}

#[test]
fn bit_depth_follows_pointer_width() {
    let expected = if usize::BITS == 64 { "64-bit" } else { "32-bit" };
    assert_eq!(bit_depth(), expected);
}

#[test]
fn is_match_needs_the_target_name() {
    assert!(is_match(Some("engine.dll"), "engine", &masks(&[])));
    assert!(is_match(Some("engine"), "engine", &masks(&[])));
    assert!(!is_match(Some("engine2.dll"), "engine", &masks(&[])));
    assert!(!is_match(Some("my_engine.dll"), "engine", &masks(&[])));
    assert!(!is_match(None, "engine", &masks(&[])));
}

#[test]
fn is_match_applies_the_masks() {
    assert!(is_match(Some("engine.dll"), "engine", &masks(&["*.dll"])));
    assert!(is_match(Some("engine.dll"), "engine", &masks(&["*.so", "**.dll"])));
    assert!(!is_match(Some("engine.dll"), "engine", &masks(&["*.so"])));
    assert!(is_match(Some("engine.tar.gz"), "engine", &masks(&["gz"])));
    assert!(is_match(Some("engine.dll"), "engine", &masks(&["*"])));
}

#[test]
fn newer_versions() {
    assert!(is_newer_version("99.0.0"));
    assert!(is_newer_version("0.1.1"));
    assert!(is_newer_version("0.1.1-alpha"));
    assert!(!is_newer_version("0.1.0"));
    assert!(!is_newer_version("0.1.0-rc.1"));
    assert!(!is_newer_version("0.0.9"));
}

#[test]
fn unparsable_versions_are_not_newer() {
    assert!(!is_newer_version("latest"));
    assert!(!is_newer_version("v99.0.0"));
    assert!(!is_newer_version("1.0"));
    assert!(!is_newer_version(""));
}

#[test]
fn qr_code_of_a_url() {
    let qr = try_qrcode("https://github.com/Eunecod/mvtool-tui").expect("fits");
    assert_ne!(qr, "https://github.com/Eunecod/mvtool-tui");
    assert!(qr.lines().count() > 10);
    assert!(qr.chars().all(|c| c == ' ' || c == '\n' || c == '\u{2580}' || c == '\u{2584}' || c == '\u{2588}'));
    assert_eq!(qrcode("https://github.com/Eunecod/mvtool-tui"), qr);
}

#[test]
fn qr_code_refuses_too_much_data() {
    let data = "x".repeat(5000);
    assert!(try_qrcode(&data).is_none());
}

#[test]
fn icon_that_cannot_be_decoded_is_blank() {
    let icon = load_icon(b"not an image");
    assert_eq!(icon.width, 16);
    assert_eq!(icon.height, 16);
    assert_eq!(icon.rgba, vec![0u8; 1024]);
}

#[test]
fn icon_is_decoded_to_rgba() {
    let mut image = image::RgbaImage::new(2, 3);
    for (x, y, pixel) in image.enumerate_pixels_mut() {
        *pixel = image::Rgba([x as u8 * 100, y as u8 * 50, 7, 255]);
    }
    let mut png = std::io::Cursor::new(Vec::new());
    image.write_to(&mut png, image::ImageFormat::Png).expect("encode");
    let icon = load_icon(png.get_ref());
    assert_eq!(icon.width, 2);
    assert_eq!(icon.height, 3);
    assert_eq!(icon.rgba, image.into_raw());
}

#[test]
fn icon_from_a_decoding_result() {
    let icon = icon_from_decoded(Some((vec![1, 2, 3, 4, 5, 6, 7, 8], 2, 1)));
    assert_eq!((icon.width, icon.height), (2, 1));
    assert_eq!(icon.rgba, vec![1, 2, 3, 4, 5, 6, 7, 8]);
    let blank = icon_from_decoded(None);
    assert_eq!((blank.width, blank.height), (16, 16));
    assert_eq!(blank.rgba, vec![0u8; 1024]);
}
