//! Small services: the program's version, the build's pointer width, file-name
//! matching, version comparison, QR text and icon decoding.
use vstd::prelude::*;

use crate::text::{chars_of, ends_with, has_prefix, has_suffix, starts_with, strip_leading, strip_leading_from};

verus! {

broadcast use vstd::string::group_string_axioms;

/// The version of this program.
pub open spec fn version_text() -> Seq<char> {
    "0.1.0"@
}

/// The version of this program, as `major.minor.patch`.
pub fn version() -> (r: String)
    ensures
        r@ == version_text(),
{
    String::from_str("0.1.0")
}

/// The pointer width of the running build, as `"64-bit"` or `"32-bit"`.
pub fn bit_depth() -> (r: String)
    ensures
        r@ == (if usize::BITS == 64 {
            "64-bit"@
        } else {
            "32-bit"@
        }),
{
    if usize::BITS == 64 {
        String::from_str("64-bit")
    } else {
        String::from_str("32-bit")
    }
}

/// Whether `file_name` names the target: it is `target` itself or `target`
/// followed by an extension (`.` and more).
pub open spec fn names_target(file_name: Seq<char>, target: Seq<char>) -> bool {
    &&& starts_with(file_name, target)
    &&& (file_name.len() == target.len() || file_name[target.len() as int] == '.')
}

/// Whether `file_name` passes the extension masks: no mask at all, or some mask,
/// with its leading `*`s removed, ends the name.
pub open spec fn passes_masks(file_name: Seq<char>, masks: Seq<Seq<char>>) -> bool {
    masks.len() == 0 || exists|i: int|
        0 <= i < masks.len() && ends_with(file_name, #[trigger] strip_leading(masks[i], '*'))
}

/// A file name passes a list of masks exactly when the list is empty or some mask
/// in it, at any position, ends the name once its leading `*`s are removed. So a
/// name that passes keeps passing when masks are added, and a mask that ends the
/// name lets it pass wherever the mask stands in the list.
pub proof fn law_masks_any_position(file_name: Seq<char>, masks: Seq<Seq<char>>, more: Seq<Seq<char>>, k: int)
    ensures
        passes_masks(file_name, masks) <==> (masks.len() == 0 || exists|i: int|
            0 <= i < masks.len() && #[trigger] ends_with(file_name, strip_leading(masks[i], '*'))),
        0 <= k < masks.len() && ends_with(file_name, strip_leading(masks[k], '*')) ==> passes_masks(
            file_name,
            masks,
        ),
        masks.len() > 0 && passes_masks(file_name, masks) ==> passes_masks(file_name, masks + more),
        masks.len() > 0 && passes_masks(file_name, masks) ==> passes_masks(file_name, more + masks),
{
    if masks.len() > 0 && passes_masks(file_name, masks) {
        let i = choose|i: int|
            0 <= i < masks.len() && ends_with(file_name, #[trigger] strip_leading(masks[i], '*'));
        assert((masks + more)[i] == masks[i]);
        assert(ends_with(file_name, strip_leading((masks + more)[i], '*')));
        assert((more + masks)[more.len() + i] == masks[i]);
        assert(ends_with(file_name, strip_leading((more + masks)[more.len() + i], '*')));
    }
    if masks.len() > 0 {
        if exists|i: int|
            0 <= i < masks.len() && #[trigger] ends_with(file_name, strip_leading(masks[i], '*')) {
            let i = choose|i: int|
                0 <= i < masks.len() && #[trigger] ends_with(file_name, strip_leading(masks[i], '*'));
            assert(ends_with(file_name, strip_leading(masks[i], '*')));
        }
    }
    if 0 <= k < masks.len() && ends_with(file_name, strip_leading(masks[k], '*')) {
        assert(ends_with(file_name, strip_leading(masks[k], '*')));
    }
}

/// The views of a slice of strings.
pub open spec fn string_views(v: Seq<String>) -> Seq<Seq<char>> {
    v.map_values(|s: String| s@)
}

/// Decides `passes_masks` for a file name given as characters.
pub fn matches_masks(name: &Vec<char>, masks: &[String]) -> (r: bool)
    ensures
        r == passes_masks(name@, string_views(masks@)),
{
    let ghost views = string_views(masks@);
    if masks.len() == 0 {
        return true;
    }
    let mut i: usize = 0;
    while i < masks.len()
        invariant
            views == string_views(masks@),
            i <= masks.len(),
            forall|k: int| 0 <= k < i ==> !ends_with(name@, #[trigger] strip_leading(views[k], '*')),
        decreases masks.len() - i,
    {
        let mask = chars_of(masks[i].as_str());
        let start = strip_leading_from(&mask, '*');
        let mut ext: Vec<char> = Vec::new();
        let mut k = start;
        while k < mask.len()
            invariant
                start <= k <= mask.len(),
                ext@ == mask@.subrange(start as int, k as int),
            decreases mask.len() - k,
        {
            ext.push(mask[k]);
            k = k + 1;
        }
        assert(views[i as int] == mask@);
        if has_suffix(name, &ext) {
            return true;
        }
        i = i + 1;
    }
    false
}

/// Whether the file whose name is `file_name` is the component `target_name` with
/// an extension that `extension_mask` admits.
///
/// `file_name` is the final component of the path, or `None` where the path has
/// none that is valid UTF-8; such a path never matches.
pub fn is_match(file_name: Option<&str>, target_name: &str, extension_mask: &[String]) -> (r: bool)
    ensures
        r == match file_name {
            None => false,
            Some(f) => names_target(f@, target_name@) && passes_masks(
                f@,
                string_views(extension_mask@),
            ),
        },
{
    let name = match file_name {
        Some(name) => name,
        None => return false,
    };
    let chars = chars_of(name);
    let target = chars_of(target_name);
    let matches_name = if has_prefix(&chars, &target) {
        chars.len() == target.len() || chars[target.len()] == '.'
    } else {
        false
    };
    if !matches_name {
        return false;
    }
    matches_masks(&chars, extension_mask)
}

/// Whether `semver::Version::parse` accepts `text`.
pub uninterp spec fn semver_valid(text: Seq<char>) -> bool;

/// Whether the version parsed from `a` orders after the one parsed from `b`
/// (major, minor, patch, pre-release, then build metadata).
pub uninterp spec fn semver_newer(a: Seq<char>, b: Seq<char>) -> bool;

#[verifier::external_type_specification]
#[verifier::external_body]
pub struct ExSemverVersion(semver::Version);

/// A version parsed from its text.
pub struct SemVer {
    source: Ghost<Seq<char>>,
    inner: semver::Version,
}

impl View for SemVer {
    type V = Seq<char>;

    closed spec fn view(&self) -> Seq<char> {
        self.source@
    }
}

/// Calls `semver::Version::parse`, which accepts exactly the texts that
/// `semver_valid` names; the result remembers the text it came from.
#[verifier::external_body]
fn parse_version(text: &str) -> (r: Option<SemVer>)
    ensures
        r is Some <==> semver_valid(text@),
        r matches Some(v) ==> v@ == text@,
{
    match semver::Version::parse(text) {
        Ok(inner) => Some(SemVer { source: Ghost(text@), inner }),
        Err(_) => None,
    }
}

/// Compares two parsed versions with `semver::Version`'s `>`, which the derived
/// `Ord` of `Version` decides; a version parsed twice from one text is equal to
/// itself, so it is not newer than itself.
#[verifier::external_body]
fn version_newer(a: &SemVer, b: &SemVer) -> (r: bool)
    ensures
        r == semver_newer(a@, b@),
        a@ == b@ ==> !r,
{
    a.inner > b.inner
}

/// Whether `target_version` is a valid semantic version that orders after this
/// program's version. A text that does not parse is never newer.
pub fn is_newer_version(target_version: &str) -> (r: bool)
    ensures
        r == (semver_valid(target_version@) && semver_valid(version_text()) && semver_newer(
            target_version@,
            version_text(),
        )),
        target_version@ == version_text() ==> !r,
{
    let current_text = version();
    let current = parse_version(current_text.as_str());
    let target = parse_version(target_version);
    match (current, target) {
        (Some(current), Some(target)) => version_newer(&target, &current),
        _ => false,
    }
}

/// The text that the `Dense1x2` renderer of the `qrcode` crate draws, with dark and
/// light swapped, for the QR code of `data`; `None` where `QrCode::new` refuses it.
pub uninterp spec fn qr_text(data: Seq<char>) -> Option<Seq<char>>;

/// Calls `qrcode::QrCode::new` on the bytes of `data` and renders the code with
/// `render::<Dense1x2>()`, dark pixels drawn light and light ones dark.
#[verifier::external_body]
fn render_qr(data: &str) -> (r: Option<String>)
    ensures
        match r {
            Some(s) => qr_text(data@) == Some(s@),
            None => qr_text(data@) is None,
        },
{
    match qrcode::QrCode::new(data) {
        Ok(code) => Some(
            code.render::<qrcode::render::unicode::Dense1x2>().dark_color(
                qrcode::render::unicode::Dense1x2::Light,
            ).light_color(qrcode::render::unicode::Dense1x2::Dark).build(),
        ),
        Err(_) => None,
    }
}

/// The QR code of `data`, drawn with block characters; `None` where `data` does
/// not fit in a QR code.
pub fn try_qrcode(data: &str) -> (r: Option<String>)
    ensures
        match r {
            Some(s) => qr_text(data@) == Some(s@),
            None => qr_text(data@) is None,
        },
{
    match render_qr(data) {
        Some(_) => Some(qrcode(data)),
        None => None,
    }
}

/// The QR code of `data`, drawn with block characters.
pub fn qrcode(data: &str) -> (r: String)
    requires
        qr_text(data@) is Some,
    ensures
        qr_text(data@) == Some(r@),
{
    match render_qr(data) {
        Some(s) => s,
        None => String::new(),
    }
}

/// Calls `image::load_from_memory` and converts the image with `into_rgba8`.
///
/// What comes back is not a function of `raw` alone: the `image` crate first
/// consults process-wide format-detection and decoding hooks, which any code in
/// the process may register. So the contract states only what holds of every
/// outcome: the buffer holds at least four bytes for each of the `width * height`
/// pixels (`ImageBuffer::from_raw` checks no more than that). The hook tables are
/// read through locks that panic when poisoned; that case is not ruled out here.
#[verifier::external_body]
fn decode_rgba(raw: &[u8]) -> (r: Option<(Vec<u8>, u32, u32)>)
    ensures
        r matches Some((pixels, width, height)) ==> pixels@.len() >= 4 * width * height,
{
    match image::load_from_memory(raw) {
        Ok(image) => {
            let rgba = image.into_rgba8();
            let (width, height) = rgba.dimensions();
            Some((rgba.into_raw(), width, height))
        },
        Err(_) => None,
    }
}

/// An RGBA image: four bytes per pixel, row by row.
pub struct Icon {
    pub rgba: Vec<u8>,
    pub width: u32,
    pub height: u32,
}

/// The icon that stands in for an image that cannot be decoded: 16 by 16
/// transparent black pixels.
pub open spec fn blank_icon_pixels() -> Seq<u8> {
    Seq::new(1024, |i: int| 0u8)
}

/// The icon for a decoding result: the decoded image, or the blank 16 by 16
/// image where decoding failed.
pub fn icon_from_decoded(decoded: Option<(Vec<u8>, u32, u32)>) -> (icon: Icon)
    ensures
        match decoded {
            Some((pixels, width, height)) => icon.rgba@ == pixels@ && icon.width == width
                && icon.height == height,
            None => icon.rgba@ == blank_icon_pixels() && icon.width == 16 && icon.height == 16,
        },
{
    match decoded {
        Some((rgba, width, height)) => Icon { rgba, width, height },
        None => {
            let mut rgba: Vec<u8> = Vec::new();
            let mut i: usize = 0;
            while i < 1024
                invariant
                    i <= 1024,
                    rgba@ == Seq::new(i as nat, |k: int| 0u8),
                decreases 1024 - i,
            {
                rgba.push(0u8);
                i = i + 1;
            }
            assert(rgba@ =~= blank_icon_pixels());
            Icon { rgba, width: 16, height: 16 }
        },
    }
}

/// Decodes the image `raw_data` to RGBA, or gives a blank 16 by 16 image where it
/// cannot be decoded. A decoded icon holds four bytes (at least) for each pixel.
pub fn load_icon(raw_data: &[u8]) -> (icon: Icon)
    ensures
        (icon.rgba@ == blank_icon_pixels() && icon.width == 16 && icon.height == 16)
            || icon.rgba@.len() >= 4 * icon.width * icon.height,
{
    icon_from_decoded(decode_rgba(raw_data))
}

} // verus!
