//! The about box, the update box, the plugin windows and the settings page.
use vstd::prelude::*;

use crate::service::{qr_text, try_qrcode};
use crate::setting::ApplicationSetting;
use crate::widget::controls::Link;

verus! {

broadcast use vstd::string::group_string_axioms;

/// The address of the tool's repository.
pub open spec fn repository_url() -> Seq<char> {
    "https://github.com/Eunecod/mvtool-tui"@
}

/// The about box: a title, the QR code of the repository's address, a link to it.
pub struct AboutWidget {
    pub title: String,
    pub qr: String,
    pub link: Link,
    pub is_open: bool,
}

impl AboutWidget {
    /// A closed about box.
    pub fn new() -> (r: Self)
        ensures
            r.title@ == "О программе"@,
            match qr_text(repository_url()) {
                Some(q) => r.qr@ == q,
                None => r.qr@ == Seq::<char>::empty(),
            },
            r.link.text@ == repository_url(),
            r.link.url@ == repository_url(),
            !r.link.is_hovered,
            !r.is_open,
    {
        let qr = match try_qrcode("https://github.com/Eunecod/mvtool-tui") {
            Some(q) => q,
            None => String::new(),
        };
        AboutWidget {
            title: String::from_str("О программе"),
            qr,
            link: Link::new(
                String::from_str("https://github.com/Eunecod/mvtool-tui"),
                String::from_str("https://github.com/Eunecod/mvtool-tui"),
            ),
            is_open: false,
        }
    }

    pub fn open(&mut self)
        ensures
            final(self).is_open,
            final(self).title == old(self).title,
            final(self).qr == old(self).qr,
            final(self).link == old(self).link,
    {
        self.is_open = true;
    }
}

/// The box that offers an update: the new version and a link to its release.
pub struct UpdatesWidget {
    pub title: String,
    pub version: String,
    pub link: Option<Link>,
    pub is_open: bool,
}

impl UpdatesWidget {
    /// A closed box that knows no release yet.
    pub fn new() -> (r: Self)
        ensures
            r.title@ == "Доступно обновление"@,
            r.version@ == Seq::<char>::empty(),
            r.link is None,
            !r.is_open,
    {
        UpdatesWidget {
            title: String::from_str("Доступно обновление"),
            version: String::new(),
            link: None,
            is_open: false,
        }
    }

    pub fn set_version(&mut self, version: String)
        ensures
            final(self).version == version,
            final(self).title == old(self).title,
            final(self).link == old(self).link,
            final(self).is_open == old(self).is_open,
    {
        self.version = version;
    }

    /// Shows `link` as the release's page, with the address as its text.
    pub fn set_link(&mut self, link: String)
        ensures
            final(self).link matches Some(l) && l.text@ == link@ && l.url@ == link@
                && !l.is_hovered,
            final(self).title == old(self).title,
            final(self).version == old(self).version,
            final(self).is_open == old(self).is_open,
    {
        let text = link.clone();
        let url = link;
        self.link = Some(Link::new(text, url));
    }

    pub fn open(&mut self)
        ensures
            final(self).is_open,
            final(self).title == old(self).title,
            final(self).version == old(self).version,
            final(self).link == old(self).link,
    {
        self.is_open = true;
    }
}

/// The window of a plugin that draws one.
pub struct PluginWidget {
    pub title: String,
}

impl PluginWidget {
    pub fn new(title: &str) -> (r: Self)
        ensures
            r.title@ == title@,
    {
        PluginWidget { title: String::from_str(title) }
    }
}

/// The menu entry of a plugin that adds one.
pub struct ItemMenuData {
    pub title: String,
}

impl ItemMenuData {
    pub fn new(title: &str) -> (r: Self)
        ensures
            r.title@ == title@,
    {
        ItemMenuData { title: String::from_str(title) }
    }
}

impl Default for ItemMenuData {
    fn default() -> (r: Self)
        ensures
            r.title@ == Seq::<char>::empty(),
    {
        ItemMenuData { title: String::new() }
    }
}

/// The settings that the settings page edits.
pub struct SettingsData<'a> {
    pub application_setting: &'a mut ApplicationSetting,
}

impl<'a> SettingsData<'a> {
    pub fn new(application_setting: &'a mut ApplicationSetting) -> (r: Self)
        ensures
            *r.application_setting == *old(application_setting),
    {
        SettingsData { application_setting }
    }
}

/// The settings page.
pub struct SettingsWidget<'a> {
    pub data: SettingsData<'a>,
    pub is_open: bool,
}

} // verus!
