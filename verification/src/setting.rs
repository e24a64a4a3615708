//! Application settings, read and written as `key=value` lines.
use vstd::prelude::*;

use crate::text::same_text;

verus! {

broadcast use vstd::string::group_string_axioms;

/// Something that reads its fields from `key=value` pairs and writes them back.
pub trait Setting {
    /// Takes in the value of one key; unknown keys and unreadable values are ignored.
    fn read(&mut self, key: &str, value: &str);

    /// Appends a `key=value` line for each field to `buffer`.
    fn write(&self, buffer: &mut String);
}

/// Where updates are looked for, and whether to look for them at start.
pub struct ApplicationSetting {
    pub url_repository: String,
    pub try_update: bool,
}

/// The text of a `bool`, as `Display` writes it and `str::parse` reads it.
pub open spec fn bool_text(b: bool) -> Seq<char> {
    if b {
        "true"@
    } else {
        "false"@
    }
}

/// The settings after the value `value` of key `key` was read.
pub open spec fn after_read(url: Seq<char>, try_update: bool, key: Seq<char>, value: Seq<char>) -> (Seq<char>, bool) {
    if key == "url_repository"@ {
        (value, try_update)
    } else if key == "try_update"@ {
        if value == "true"@ {
            (url, true)
        } else if value == "false"@ {
            (url, false)
        } else {
            (url, try_update)
        }
    } else {
        (url, try_update)
    }
}

/// The lines that `write` appends.
pub open spec fn setting_lines(url: Seq<char>, try_update: bool) -> Seq<char> {
    "url_repository="@ + url + "\n"@ + "try_update="@ + bool_text(try_update) + "\n"@
}

impl ApplicationSetting {
    pub open spec fn model(&self) -> (Seq<char>, bool) {
        (self.url_repository@, self.try_update)
    }
}

impl Default for ApplicationSetting {
    /// No repository, and updates are looked for.
    fn default() -> (r: Self)
        ensures
            r.url_repository@ == Seq::<char>::empty(),
            r.try_update,
    {
        ApplicationSetting { url_repository: String::new(), try_update: true }
    }
}

impl Setting for ApplicationSetting {
    fn read(&mut self, key: &str, value: &str)
        ensures
            final(self).model() == after_read(
                old(self).url_repository@,
                old(self).try_update,
                key@,
                value@,
            ),
    {
        if same_text(key, "url_repository") {
            self.url_repository = String::from_str(value);
        } else if same_text(key, "try_update") {
            if same_text(value, "true") {
                self.try_update = true;
            } else if same_text(value, "false") {
                self.try_update = false;
            }
        }
    }

    fn write(&self, buffer: &mut String)
        ensures
            final(buffer)@ == old(buffer)@ + setting_lines(self.url_repository@, self.try_update),
    {
        buffer.append("url_repository=");
        buffer.append(self.url_repository.as_str());
        buffer.append("\n");
        buffer.append("try_update=");
        if self.try_update {
            buffer.append("true");
        } else {
            buffer.append("false");
        }
        buffer.append("\n");
        assert(buffer@ =~= old(buffer)@ + setting_lines(self.url_repository@, self.try_update));
    }
}

/// Reading back the values that `write` writes restores the settings: the value
/// of `url_repository`, then that of `try_update`, whatever the settings were.
pub proof fn law_write_then_read(url: Seq<char>, try_update: bool, other_url: Seq<char>, other_try: bool)
    ensures
        ({
            let first = after_read(other_url, other_try, "url_repository"@, url);
            after_read(first.0, first.1, "try_update"@, bool_text(try_update))
        }) == (url, try_update),
{
    reveal_strlit("url_repository");
    reveal_strlit("try_update");
    reveal_strlit("true");
    reveal_strlit("false");
    assert("try_update"@.len() != "url_repository"@.len());
    assert("false"@.len() != "true"@.len());
}

} // verus!
