//! The latest release of the tool, as its repository describes it, and the
//! decisions of installing it.
use vstd::prelude::*;

use crate::service::{is_newer_version, semver_newer, semver_valid, version_text};
use crate::text::{chars_of, contains, has_infix, has_suffix, ends_with, strip_leading, strip_leading_from};

verus! {

broadcast use vstd::string::group_string_axioms;

/// The name of the tool's executable.
pub open spec fn binary_name() -> Seq<char> {
    "mvtool"@
}

/// A file attached to a release.
pub struct Asset {
    pub name: String,
    pub browser_download_url: String,
    pub size: u64,
}

/// A published release.
pub struct Release {
    pub tag_name: String,
    pub html_url: String,
    pub assets: Vec<Asset>,
}

/// Knows the latest release and decides whether and how to install it.
pub struct Updater {
    release: Release,
}

/// Whether the release tagged `tag` (with any leading `v`s dropped) is newer than
/// this program.
pub open spec fn tag_is_newer(tag: Seq<char>) -> bool {
    let v = strip_leading(tag, 'v');
    semver_valid(v) && semver_valid(version_text()) && semver_newer(v, version_text())
}

/// The index of the first asset whose name contains `target`.
pub open spec fn first_asset_for(assets: Seq<Asset>, target: Seq<char>, from: int) -> Option<int>
    decreases assets.len() - from,
{
    if from < 0 || from >= assets.len() {
        None
    } else if contains(assets[from].name@, target) {
        Some(from)
    } else {
        first_asset_for(assets, target, from + 1)
    }
}

/// Whether a file found in an unpacked release is the new executable.
pub open spec fn is_binary_file(name: Seq<char>) -> bool {
    name == binary_name() || ends_with(name, ".exe"@)
}

impl Updater {
    /// An updater for `release`, which was fetched from the repository.
    pub fn new(release: Release) -> (r: Self)
        ensures
            r.release() == release,
    {
        Updater { release }
    }

    pub closed spec fn release(&self) -> Release {
        self.release
    }

    /// The release this updater knows.
    pub fn get_release(&self) -> (r: &Release)
        ensures
            *r == self.release(),
    {
        &self.release
    }

    /// The tag of the latest release.
    pub fn get_latest_version(&self) -> (r: &str)
        ensures
            r@ == self.release().tag_name@,
    {
        self.release.tag_name.as_str()
    }

    /// The web page of the latest release.
    pub fn get_release_link(&self) -> (r: &str)
        ensures
            r@ == self.release().html_url@,
    {
        self.release.html_url.as_str()
    }

    /// Whether the latest release is newer than this program.
    pub fn is_update_available(&self) -> (r: bool)
        ensures
            r == tag_is_newer(self.release().tag_name@),
    {
        let tag = chars_of(self.release.tag_name.as_str());
        let start = strip_leading_from(&tag, 'v');
        let version = self.release.tag_name.as_str().substring_char(start, tag.len());
        is_newer_version(version)
    }

    /// The asset to download for the platform `target` (`arch-os`): the first whose
    /// name contains it.
    pub fn select_asset(&self, target: &str) -> (r: Option<usize>)
        ensures
            match r {
                Some(i) => first_asset_for(self.release().assets@, target@, 0) == Some(i as int),
                None => first_asset_for(self.release().assets@, target@, 0) is None,
            },
    {
        let assets = &self.release.assets;
        let pattern = chars_of(target);
        let mut i: usize = 0;
        while i < assets.len()
            invariant
                assets == &self.release().assets,
                pattern@ == target@,
                i <= assets.len(),
                first_asset_for(assets@, target@, 0) == first_asset_for(assets@, target@, i as int),
            decreases assets.len() - i,
        {
            let name = chars_of(assets[i].name.as_str());
            if has_infix(&name, &pattern) {
                return Some(i);
            }
            i = i + 1;
        }
        None
    }
}

/// An update is offered exactly when `is_newer_version` says the tag, with its
/// leading `v`s removed, is newer than this program, and nothing else is asked of
/// it: a tag that is a valid version ordered after the program's is always
/// offered, and a leading `v` changes nothing.
pub proof fn law_update_iff_newer_version(tag: Seq<char>)
    ensures
        tag_is_newer(tag) == ({
            let v = strip_leading(tag, 'v');
            semver_valid(v) && semver_valid(version_text()) && semver_newer(v, version_text())
        }),
        tag.len() == 0 || tag[0] != 'v' ==> (tag_is_newer(tag) == (semver_valid(tag) && semver_valid(
            version_text(),
        ) && semver_newer(tag, version_text()))),
        tag_is_newer(seq!['v'] + tag) == tag_is_newer(tag),
{
    assert((seq!['v'] + tag).drop_first() =~= tag);
}

/// Whether `name`, a file of the unpacked release, is the new executable.
pub fn is_binary(name: &str) -> (r: bool)
    ensures
        r == is_binary_file(name@),
{
    let chars = chars_of(name);
    let binary = chars_of("mvtool");
    let exe = chars_of(".exe");
    let same = chars.len() == binary.len() && has_suffix(&chars, &binary);
    proof {
        if chars.len() == binary.len() {
            assert(chars@.subrange(0, chars@.len() as int) =~= chars@);
        }
    }
    same || has_suffix(&chars, &exe)
}

} // verus!
